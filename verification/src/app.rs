use vstd::prelude::*;
use crate::model::common::Scroll;
use crate::model::keybind::{KeyEvent, Keybind};
use crate::model::library::LibraryState;
use crate::model::musing::MusingState;
use crate::model::queue::QueueState;

verus! {

/// Whether the program goes on.
#[derive(Clone, Copy, Debug, PartialEq, Eq, Structural)]
pub enum AppState {
    Running,
    Done,
}

/// The screen that is shown.
#[derive(Clone, Copy, Debug, PartialEq, Eq, Structural)]
pub enum Screen {
    Cover,
    Queue,
    Library,
}

impl Default for AppState {
    fn default() -> (r: AppState)
        ensures
            r == AppState::Running,
    {
        AppState::Running
    }
}

impl Default for Screen {
    fn default() -> (r: Screen)
        ensures
            r == Screen::Cover,
    {
        Screen::Cover
    }
}

/// What is set before the program starts.
#[derive(Debug)]
pub struct AppConfig {
    pub keybind: Keybind,
    pub seek_step: i64,
    pub volume_step: i8,
    pub speed_step: i16,
}

impl AppConfig {
    /// Each step can be taken in both directions.
    pub open spec fn steps_have_opposites(self) -> bool {
        self.seek_step > i64::MIN && self.volume_step > i8::MIN && self.speed_step > i16::MIN
    }

    pub fn check_steps(&self) -> (r: bool)
        ensures
            r == self.steps_have_opposites(),
    {
        self.seek_step > i64::MIN && self.volume_step > i8::MIN && self.speed_step > i16::MIN
    }
}

/// All that the program knows and shows.
#[derive(Debug)]
pub struct App {
    pub app_state: AppState,
    pub screen: Screen,
    pub musing_state: MusingState,
    pub queue_state: QueueState,
    pub library_state: LibraryState,
    pub key_events: Vec<KeyEvent>,
    pub status_msg: Option<String>,
    pub config: AppConfig,
}

impl App {
    /// The program at its start, on the cover screen, with nothing known of
    /// the server yet.
    pub fn new(config: AppConfig, library_group_by: Vec<String>) -> (r: App)
        ensures
            r.app_state == AppState::Running,
            r.screen == Screen::Cover,
            r.musing_state@ == crate::model::musing::MusingStateView::initial(),
            r.queue_state.empty(),
            r.library_state.empty(),
            r.library_state.group_by_tags == library_group_by,
            r.library_state.steady(),
            r.key_events@.len() == 0,
            r.status_msg.is_none(),
            r.config == config,
    {
        App {
            app_state: AppState::default(),
            screen: Screen::default(),
            musing_state: MusingState::default(),
            queue_state: QueueState::default(),
            library_state: LibraryState::new(library_group_by),
            key_events: Vec::new(),
            status_msg: None,
            config,
        }
    }
}

} // verus!
