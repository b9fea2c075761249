//! What the game decides, apart from what the engine does.
//!
//! The engine draws, plays sounds, reads the keyboard and the save file.
//! What is kept here is what follows from that: which screens are up,
//! whether a level is being played or loaded, whether the game goes on, and
//! what has to be done about each message.

use vstd::prelude::*;
use crate::loader::LoadState;
use crate::loader::Loader;
use crate::loader::Observation;
use crate::loader::PollAction;
use crate::loader::StartPlan;
use crate::message::Message;
use crate::options::MatchOptions;
use crate::scalar::Scalar;

verus! {

/// What the engine has to do about a message.
#[derive(Clone, Copy, Debug, PartialEq, Eq, Structural)]
pub enum Order {
    /// Start to build a new level with these options, as the plan says.
    BuildLevel { plan: StartPlan, options: MatchOptions },
    /// Write the save file.
    Save,
    /// Read the save file.
    Load,
    /// Tear down the level, if one is played, and leave the main loop.
    Quit { destroy_level: bool },
    /// Tear down the level, if one is played, and show the leader board.
    ShowLeaderBoard { destroy_level: bool },
    /// Set the volume of the music.
    SetMusicVolume { volume: Scalar },
    /// Nothing for the game itself.
    Nothing,
}

#[derive(Clone, Copy, Debug, PartialEq, Eq, Structural)]
pub struct Game {
    pub loader: Loader,
    /// The main loop goes on.
    pub running: bool,
    /// The display over the level is up.
    pub hud_visible: bool,
    pub leader_board_visible: bool,
}

impl Game {
    /// The game with the menu up or down; the display over the level is up
    /// exactly when the menu is down.
    pub open spec fn with_menu(self, visible: bool) -> Game {
        Game {
            loader: Loader {
                state: self.loader.state,
                level_present: self.loader.level_present,
                loading_screen_visible: self.loader.loading_screen_visible,
                menu_visible: visible,
            },
            running: self.running,
            hud_visible: !visible,
            leader_board_visible: self.leader_board_visible,
        }
    }

    /// The game without the level that is played.
    pub open spec fn without_level(self) -> Game {
        Game {
            loader: Loader {
                state: self.loader.state,
                level_present: false,
                loading_screen_visible: self.loader.loading_screen_visible,
                menu_visible: self.loader.menu_visible,
            },
            running: self.running,
            hud_visible: self.hud_visible,
            leader_board_visible: self.leader_board_visible,
        }
    }

    /// The game after it looked into the cell of the builder and found
    /// `seen`.
    pub open spec fn updated(self, seen: Observation) -> Game {
        Game {
            loader: self.loader.polled(seen),
            running: self.running,
            hud_visible: if self.loader.action(seen) == PollAction::Commit {
                true
            } else if self.loader.action(seen) == PollAction::GiveUp {
                false
            } else {
                self.hud_visible
            },
            leader_board_visible: self.leader_board_visible,
        }
    }

    /// The game after the message.
    pub open spec fn after(self, message: Message) -> Game {
        match message {
            Message::StartNewGame { options } => Game {
                loader: self.loader.started(),
                running: self.running,
                hud_visible: self.hud_visible,
                leader_board_visible: self.leader_board_visible,
            },
            Message::QuitGame => Game {
                loader: self.without_level().loader,
                running: false,
                hud_visible: self.hud_visible,
                leader_board_visible: self.leader_board_visible,
            },
            Message::EndMatch => Game {
                loader: self.without_level().loader,
                running: self.running,
                hud_visible: self.hud_visible,
                leader_board_visible: true,
            },
            _ => self,
        }
    }

    /// What the engine has to do about the message.
    pub open spec fn order(self, message: Message) -> Order {
        match message {
            Message::StartNewGame { options } => Order::BuildLevel {
                plan: StartPlan {
                    destroy_level: self.loader.level_present,
                    show_loading_screen: true,
                    spawn_builder: true,
                },
                options,
            },
            Message::SaveGame => Order::Save,
            Message::LoadGame => Order::Load,
            Message::QuitGame => Order::Quit { destroy_level: self.loader.level_present },
            Message::EndMatch => Order::ShowLeaderBoard {
                destroy_level: self.loader.level_present,
            },
            Message::SetMusicVolume { volume } => Order::SetMusicVolume { volume },
            _ => Order::Nothing,
        }
    }

    /// The game as it starts: running, the menu up, nothing loaded.
    pub fn new() -> (g: Game)
        ensures
            g.running,
            g.loader.state == LoadState::Idle,
            !g.loader.level_present,
            !g.loader.loading_screen_visible,
            g.loader.menu_visible,
            !g.hud_visible,
            !g.leader_board_visible,
    {
        Game {
            loader: Loader::new(),
            running: true,
            hud_visible: false,
            leader_board_visible: false,
        }
    }

    /// A new game is asked for. The level that is played, if any, is torn
    /// down, the loading screen goes up and the menu down, and the builder
    /// starts.
    pub fn start_new_game(&mut self, options: MatchOptions) -> (plan: StartPlan)
        ensures
            *final(self) == old(self).after((Message::StartNewGame { options })),
            (Order::BuildLevel { plan, options }) == old(self).order(
                (Message::StartNewGame { options }),
            ),
    {
        self.loader.start_new_game()
    }

    /// Puts the menu up or down, and the display over the level down or up.
    pub fn set_menu_visible(&mut self, visible: bool)
        ensures
            *final(self) == old(self).with_menu(visible),
    {
        self.loader.menu_visible = visible;
        self.hud_visible = !visible;
    }

    pub fn is_menu_visible(&self) -> (b: bool)
        ensures
            b == self.loader.menu_visible,
    {
        self.loader.menu_visible
    }

    /// One frame of the main loop, as far as loading goes: the loop looked
    /// into the cell of the builder and found `seen`. A finished level is
    /// committed, and then the menu goes down and the display over the level
    /// up; a failed builder brings the menu back; as long as neither is
    /// seen, the progress is shown.
    pub fn update(&mut self, seen: Observation) -> (action: PollAction)
        ensures
            *final(self) == old(self).updated(seen),
            action == old(self).loader.action(seen),
    {
        let action = self.loader.poll(seen);
        match action {
            PollAction::Commit => {
                self.hud_visible = true;
            },
            PollAction::GiveUp => {
                self.hud_visible = false;
            },
            PollAction::ReportProgress => {},
            PollAction::Nothing => {},
        }
        action
    }

    /// A key went down or up, and `escape_pressed` tells whether it was the
    /// escape key going down, which puts the menu up or down.
    pub fn process_input_event(&mut self, escape_pressed: bool)
        ensures
            *final(self) == (if escape_pressed {
                old(self).with_menu(!old(self).loader.menu_visible)
            } else {
                *old(self)
            }),
    {
        if escape_pressed {
            let visible = !self.is_menu_visible();
            self.set_menu_visible(visible);
        }
    }

    /// The level that is played was torn down.
    pub fn destroy_level(&mut self) -> (destroyed: bool)
        ensures
            destroyed == old(self).loader.level_present,
            *final(self) == old(self).without_level(),
    {
        let destroyed = self.loader.level_present;
        self.loader.level_present = false;
        destroyed
    }

    /// The save file was read: the menu goes down, and a level is played if
    /// the file held one. The level that was played before was torn down
    /// before the file was read.
    pub fn load_game(&mut self, level_loaded: bool)
        ensures
            final(self).loader.level_present == level_loaded,
            final(self).loader.state == old(self).loader.state,
            final(self).loader.loading_screen_visible == old(self).loader.loading_screen_visible,
            !final(self).loader.menu_visible,
            final(self).hud_visible,
            final(self).running == old(self).running,
            final(self).leader_board_visible == old(self).leader_board_visible,
    {
        self.loader.level_present = level_loaded;
        self.set_menu_visible(false);
    }

    /// Whether a level is played. After each message has been dealt with,
    /// the level that is played then gets to see the message too.
    pub fn is_level_present(&self) -> (b: bool)
        ensures
            b == self.loader.level_present,
    {
        self.loader.level_present
    }

    /// One message taken from the queue: what it changes, and what the
    /// engine has to do about it.
    pub fn handle_message(&mut self, message: &Message) -> (order: Order)
        ensures
            *final(self) == old(self).after(*message),
            order == old(self).order(*message),
    {
        match *message {
            Message::StartNewGame { options } => {
                let plan = self.start_new_game(options);
                Order::BuildLevel { plan, options }
            },
            Message::SaveGame => Order::Save,
            Message::LoadGame => Order::Load,
            Message::QuitGame => {
                let destroy_level = self.destroy_level();
                self.running = false;
                Order::Quit { destroy_level }
            },
            Message::EndMatch => {
                let destroy_level = self.destroy_level();
                self.leader_board_visible = true;
                Order::ShowLeaderBoard { destroy_level }
            },
            Message::SetMusicVolume { volume } => Order::SetMusicVolume { volume },
            Message::PickUpItem { actor, item } => Order::Nothing,
            Message::RespawnActor { actor } => Order::Nothing,
        }
    }
}

} // verus!
