use vstd::prelude::*;
use vstd::string::*;
use crate::app::{App, AppConfig, AppState, Screen};
use crate::model::common::{can_scroll, scroll_allowed, scrolled, FocusedPart, Scroll, TableState};
use crate::model::connection::{MusingRequest, MusingRequestView, MusingResponse};
use crate::model::keybind::{Binding, KeyEvent, KeybindNode, Resolution};
use crate::model::library::{real_selected, LibraryState};
use crate::model::musing::{MusingSongView, MusingStateDelta};
use crate::model::queue::QueueState;
use crate::model::search::{Search, SearchMessageView, SearchState};
use crate::text::{copy_texts, texts};

verus! {

/// A change that a key asks for.
#[derive(Clone, Copy, Debug, PartialEq, Eq, Structural)]
pub enum AppUpdate {
    Next,
    Previous,
    Pause,
    Resume,
    Toggle,
    Stop,
    Play,
    Seek(i64),
    Speed(i16),
    Volume(i8),
    Scroll(i32),
    ScrollTop,
    ScrollBottom,
    FocusLeft,
    FocusRight,
    StartSearch,
    EndSearch,
    IdleSearch,
    UpdateSearch,
    AddToQueue,
    RemoveFromQueue,
    ClearQueue,
    ModeGapless,
    ModeRandom,
    ModeSequential,
    ModeSingle,
    MusingUpdate,
}

/// What a key sequence that is bound comes to.
#[derive(Clone, Copy, Debug, PartialEq, Eq, Structural)]
pub enum Message {
    SwitchScreen(Screen),
    SwitchAppState(AppState),
    Update(AppUpdate),
}

impl AppUpdate {
    /// The kind of the request that stands for a change which the server
    /// makes without further ado: the name of the change in lower case.
    pub open spec fn kind(self) -> Option<Seq<char>> {
        match self {
            AppUpdate::Next => Some("next"@),
            AppUpdate::Previous => Some("previous"@),
            AppUpdate::Pause => Some("pause"@),
            AppUpdate::Resume => Some("resume"@),
            AppUpdate::Toggle => Some("toggle"@),
            AppUpdate::Stop => Some("stop"@),
            AppUpdate::ClearQueue => Some("clearqueue"@),
            AppUpdate::ModeGapless => Some("modegapless"@),
            AppUpdate::ModeRandom => Some("moderandom"@),
            AppUpdate::ModeSequential => Some("modesequential"@),
            AppUpdate::ModeSingle => Some("modesingle"@),
            _ => None,
        }
    }

    pub fn kind_name(&self) -> (r: Option<&'static str>)
        ensures
            match r {
                Some(name) => self.kind() == Some(name@),
                None => self.kind().is_none(),
            },
    {
        match self {
            AppUpdate::Next => Some("next"),
            AppUpdate::Previous => Some("previous"),
            AppUpdate::Pause => Some("pause"),
            AppUpdate::Resume => Some("resume"),
            AppUpdate::Toggle => Some("toggle"),
            AppUpdate::Stop => Some("stop"),
            AppUpdate::ClearQueue => Some("clearqueue"),
            AppUpdate::ModeGapless => Some("modegapless"),
            AppUpdate::ModeRandom => Some("moderandom"),
            AppUpdate::ModeSequential => Some("modesequential"),
            AppUpdate::ModeSingle => Some("modesingle"),
            _ => None,
        }
    }
}

/// What a binding comes to on every screen.
pub open spec fn common_message(config: AppConfig, binding: Binding) -> Option<Message> {
    match binding {
        Binding::Quit => Some(Message::SwitchAppState(AppState::Done)),
        Binding::Next => Some(Message::Update(AppUpdate::Next)),
        Binding::Previous => Some(Message::Update(AppUpdate::Previous)),
        Binding::Pause => Some(Message::Update(AppUpdate::Pause)),
        Binding::Resume => Some(Message::Update(AppUpdate::Resume)),
        Binding::Toggle => Some(Message::Update(AppUpdate::Toggle)),
        Binding::Stop => Some(Message::Update(AppUpdate::Stop)),
        Binding::SeekForwards => Some(Message::Update(AppUpdate::Seek(config.seek_step))),
        Binding::SeekBackwards => Some(Message::Update(AppUpdate::Seek((-config.seek_step) as i64))),
        Binding::SpeedUp => Some(Message::Update(AppUpdate::Speed(config.speed_step))),
        Binding::SpeedDown => Some(Message::Update(AppUpdate::Speed((-config.speed_step) as i16))),
        Binding::VolumeUp => Some(Message::Update(AppUpdate::Volume(config.volume_step))),
        Binding::VolumeDown => Some(Message::Update(AppUpdate::Volume((-config.volume_step) as i8))),
        Binding::ModeSequential => Some(Message::Update(AppUpdate::ModeSequential)),
        Binding::ModeSingle => Some(Message::Update(AppUpdate::ModeSingle)),
        Binding::ModeRandom => Some(Message::Update(AppUpdate::ModeRandom)),
        Binding::ModeGapless => Some(Message::Update(AppUpdate::ModeGapless)),
        Binding::MusingUpdate => Some(Message::Update(AppUpdate::MusingUpdate)),
        Binding::ScreenCover => Some(Message::SwitchScreen(Screen::Cover)),
        Binding::ScreenQueue => Some(Message::SwitchScreen(Screen::Queue)),
        Binding::ScreenLibrary => Some(Message::SwitchScreen(Screen::Library)),
        _ => None,
    }
}

/// What a binding comes to while a pattern is typed: the end of the search
/// leaves the order standing, and every other key goes to the pattern.
pub open spec fn typing_message(binding: Binding) -> Option<Message> {
    if binding == Binding::EndSearch {
        Some(Message::Update(AppUpdate::IdleSearch))
    } else {
        Some(Message::Update(AppUpdate::UpdateSearch))
    }
}

/// What a binding comes to on the queue screen.
pub open spec fn queue_message(search: SearchState, config: AppConfig, binding: Binding) -> Option<Message> {
    if search == SearchState::On {
        typing_message(binding)
    } else {
        match binding {
            Binding::ScrollUp => Some(Message::Update(AppUpdate::Scroll(-1i32))),
            Binding::ScrollDown => Some(Message::Update(AppUpdate::Scroll(1))),
            Binding::ScrollManyUp => Some(Message::Update(AppUpdate::Scroll(-5i32))),
            Binding::ScrollManyDown => Some(Message::Update(AppUpdate::Scroll(5))),
            Binding::ScrollTop => Some(Message::Update(AppUpdate::ScrollTop)),
            Binding::ScrollBottom => Some(Message::Update(AppUpdate::ScrollBottom)),
            Binding::RemoveFromQueue => Some(Message::Update(AppUpdate::RemoveFromQueue)),
            Binding::ClearQueue => Some(Message::Update(AppUpdate::ClearQueue)),
            Binding::Play => Some(Message::Update(AppUpdate::Play)),
            Binding::StartSearch => Some(Message::Update(AppUpdate::StartSearch)),
            Binding::EndSearch => Some(Message::Update(AppUpdate::EndSearch)),
            _ => common_message(config, binding),
        }
    }
}

/// What a binding comes to on the library screen.
pub open spec fn library_message(search: SearchState, config: AppConfig, binding: Binding) -> Option<
    Message,
> {
    if search == SearchState::On {
        typing_message(binding)
    } else {
        match binding {
            Binding::ScrollUp => Some(Message::Update(AppUpdate::Scroll(-1i32))),
            Binding::ScrollDown => Some(Message::Update(AppUpdate::Scroll(1))),
            Binding::ScrollManyUp => Some(Message::Update(AppUpdate::Scroll(-5i32))),
            Binding::ScrollManyDown => Some(Message::Update(AppUpdate::Scroll(5))),
            Binding::ScrollTop => Some(Message::Update(AppUpdate::ScrollTop)),
            Binding::ScrollBottom => Some(Message::Update(AppUpdate::ScrollBottom)),
            Binding::FocusLeft => Some(Message::Update(AppUpdate::FocusLeft)),
            Binding::FocusRight => Some(Message::Update(AppUpdate::FocusRight)),
            Binding::AddToQueue => Some(Message::Update(AppUpdate::AddToQueue)),
            Binding::StartSearch => Some(Message::Update(AppUpdate::StartSearch)),
            Binding::EndSearch => Some(Message::Update(AppUpdate::EndSearch)),
            _ => common_message(config, binding),
        }
    }
}

impl App {
    /// The program is in order: the side of the library that has the focus
    /// is there, and each step can be taken in both directions.
    pub open spec fn wf(self) -> bool {
        self.library_state.steady() && self.config.steps_have_opposites()
    }

    pub fn is_wf(&self) -> (r: bool)
        ensures
            r == self.wf(),
    {
        self.library_state.is_steady() && self.config.check_steps()
    }

    /// The state of the search that takes the keys now, if a list is shown.
    pub open spec fn focused_search(self) -> Option<SearchState> {
        match self.screen {
            Screen::Queue => Some(self.queue_state.search.state),
            Screen::Library => match self.library_state.focused_part {
                FocusedPart::Groups => Some(self.library_state.search.state),
                FocusedPart::Child(i) => Some(self.library_state.children@[i as int].search.state),
            },
            Screen::Cover => None,
        }
    }

    /// What a binding comes to, given the screen and the search.
    pub open spec fn message(self, binding: Binding) -> Option<Message> {
        match self.screen {
            Screen::Queue => queue_message(self.queue_state.search.state, self.config, binding),
            Screen::Library => library_message(self.focused_search()->Some_0, self.config, binding),
            Screen::Cover => common_message(self.config, binding),
        }
    }
}

pub fn translate_binding_common(app: &mut App, binding: Binding) -> (r: Option<Message>)
    requires
        old(app).config.steps_have_opposites(),
    ensures
        r == common_message(old(app).config, binding),
        *final(app) == *old(app),
{
    match binding {
        Binding::Quit => Some(Message::SwitchAppState(AppState::Done)),
        Binding::Next => Some(Message::Update(AppUpdate::Next)),
        Binding::Previous => Some(Message::Update(AppUpdate::Previous)),
        Binding::Pause => Some(Message::Update(AppUpdate::Pause)),
        Binding::Resume => Some(Message::Update(AppUpdate::Resume)),
        Binding::Toggle => Some(Message::Update(AppUpdate::Toggle)),
        Binding::Stop => Some(Message::Update(AppUpdate::Stop)),
        Binding::SeekForwards => Some(Message::Update(AppUpdate::Seek(app.config.seek_step))),
        Binding::SeekBackwards => Some(Message::Update(AppUpdate::Seek(-app.config.seek_step))),
        Binding::SpeedUp => Some(Message::Update(AppUpdate::Speed(app.config.speed_step))),
        Binding::SpeedDown => Some(Message::Update(AppUpdate::Speed(-app.config.speed_step))),
        Binding::VolumeUp => Some(Message::Update(AppUpdate::Volume(app.config.volume_step))),
        Binding::VolumeDown => Some(Message::Update(AppUpdate::Volume(-app.config.volume_step))),
        Binding::ModeSequential => Some(Message::Update(AppUpdate::ModeSequential)),
        Binding::ModeSingle => Some(Message::Update(AppUpdate::ModeSingle)),
        Binding::ModeRandom => Some(Message::Update(AppUpdate::ModeRandom)),
        Binding::ModeGapless => Some(Message::Update(AppUpdate::ModeGapless)),
        Binding::MusingUpdate => Some(Message::Update(AppUpdate::MusingUpdate)),
        Binding::ScreenCover => Some(Message::SwitchScreen(Screen::Cover)),
        Binding::ScreenQueue => Some(Message::SwitchScreen(Screen::Queue)),
        Binding::ScreenLibrary => Some(Message::SwitchScreen(Screen::Library)),
        _ => None,
    }
}

/// What a binding comes to while a pattern is typed.
fn translate_binding_typing(binding: Binding) -> (r: Option<Message>)
    ensures
        r == typing_message(binding),
{
    match binding {
        Binding::EndSearch => Some(Message::Update(AppUpdate::IdleSearch)),
        _ => Some(Message::Update(AppUpdate::UpdateSearch)),
    }
}

fn translate_binding_queue(app: &mut App, binding: Binding) -> (r: Option<Message>)
    requires
        old(app).config.steps_have_opposites(),
    ensures
        r == queue_message(old(app).queue_state.search.state, old(app).config, binding),
        *final(app) == *old(app),
{
    match app.queue_state.search.state {
        SearchState::On => translate_binding_typing(binding),
        _ => match binding {
            Binding::ScrollUp => Some(Message::Update(AppUpdate::Scroll(-1))),
            Binding::ScrollDown => Some(Message::Update(AppUpdate::Scroll(1))),
            Binding::ScrollManyUp => Some(Message::Update(AppUpdate::Scroll(-5))),
            Binding::ScrollManyDown => Some(Message::Update(AppUpdate::Scroll(5))),
            Binding::ScrollTop => Some(Message::Update(AppUpdate::ScrollTop)),
            Binding::ScrollBottom => Some(Message::Update(AppUpdate::ScrollBottom)),
            Binding::RemoveFromQueue => Some(Message::Update(AppUpdate::RemoveFromQueue)),
            Binding::ClearQueue => Some(Message::Update(AppUpdate::ClearQueue)),
            Binding::Play => Some(Message::Update(AppUpdate::Play)),
            Binding::StartSearch => Some(Message::Update(AppUpdate::StartSearch)),
            Binding::EndSearch => Some(Message::Update(AppUpdate::EndSearch)),
            _ => translate_binding_common(app, binding),
        },
    }
}

fn translate_binding_library_both(app: &mut App, binding: Binding) -> (r: Option<Message>)
    requires
        old(app).config.steps_have_opposites(),
    ensures
        r == library_message(SearchState::Off, old(app).config, binding),
        *final(app) == *old(app),
{
    match binding {
        Binding::ScrollUp => Some(Message::Update(AppUpdate::Scroll(-1))),
        Binding::ScrollDown => Some(Message::Update(AppUpdate::Scroll(1))),
        Binding::ScrollManyUp => Some(Message::Update(AppUpdate::Scroll(-5))),
        Binding::ScrollManyDown => Some(Message::Update(AppUpdate::Scroll(5))),
        Binding::ScrollTop => Some(Message::Update(AppUpdate::ScrollTop)),
        Binding::ScrollBottom => Some(Message::Update(AppUpdate::ScrollBottom)),
        Binding::FocusLeft => Some(Message::Update(AppUpdate::FocusLeft)),
        Binding::FocusRight => Some(Message::Update(AppUpdate::FocusRight)),
        Binding::AddToQueue => Some(Message::Update(AppUpdate::AddToQueue)),
        Binding::StartSearch => Some(Message::Update(AppUpdate::StartSearch)),
        Binding::EndSearch => Some(Message::Update(AppUpdate::EndSearch)),
        _ => translate_binding_common(app, binding),
    }
}

fn translate_binding_library_groups(app: &mut App, binding: Binding) -> (r: Option<Message>)
    requires
        old(app).config.steps_have_opposites(),
    ensures
        r == library_message(old(app).library_state.search.state, old(app).config, binding),
        *final(app) == *old(app),
{
    match app.library_state.search.state {
        SearchState::On => translate_binding_typing(binding),
        _ => translate_binding_library_both(app, binding),
    }
}

fn translate_binding_library_child(app: &mut App, binding: Binding, i: usize) -> (r: Option<Message>)
    requires
        old(app).config.steps_have_opposites(),
        i < old(app).library_state.children@.len(),
    ensures
        r == library_message(
            old(app).library_state.children@[i as int].search.state,
            old(app).config,
            binding,
        ),
        *final(app) == *old(app),
{
    match app.library_state.children[i].search.state {
        SearchState::On => translate_binding_typing(binding),
        _ => translate_binding_library_both(app, binding),
    }
}

/// What the keys typed so far come to, once one more key is typed: the
/// binding of the sequence, `Other` where the sequence is bound to nothing,
/// or `None` where it is the start of longer bound sequences.
pub open spec fn typed(app: App, ev: KeyEvent) -> Option<Binding> {
    match app.config.keybind.resolve(app.key_events@.push(ev)) {
        Some(Resolution::Terminal(binding)) => Some(binding),
        Some(Resolution::Transition) => None,
        None => Some(Binding::Other),
    }
}

/// Takes a key. A sequence that may go on is kept, and nothing is asked for.
/// A sequence that is bound, or that is bound to nothing, is done: the keys
/// are forgotten, and what its binding comes to is asked for.
pub fn translate_key_event(app: &mut App, ev: KeyEvent) -> (r: Option<Message>)
    requires
        old(app).wf(),
    ensures
        final(app).wf(),
        r == match typed(*old(app), ev) {
            Some(binding) => old(app).message(binding),
            None => None,
        },
        final(app).key_events@ == match typed(*old(app), ev) {
            Some(_) => Seq::<KeyEvent>::empty(),
            None => old(app).key_events@.push(ev),
        },
        *final(app) == (App { key_events: final(app).key_events, ..*old(app) }),
{
    app.key_events.push(ev);
    let binding = match app.config.keybind.translate(app.key_events.as_slice()) {
        Some(KeybindNode::Terminal(binding)) => *binding,
        Some(KeybindNode::Transition(_)) => {
            return None;
        },
        None => Binding::Other,
    };
    let ghost typed_app = *app;
    let res = match app.screen {
        Screen::Queue => translate_binding_queue(app, binding),
        Screen::Library => match app.library_state.focused_part {
            FocusedPart::Groups => translate_binding_library_groups(app, binding),
            FocusedPart::Child(i) => translate_binding_library_child(app, binding, i),
        },
        _ => translate_binding_common(app, binding),
    };
    app.key_events.clear();
    res
}

/// The id of the song of the queue that is selected.
pub open spec fn selected_song(app: App) -> Option<u64> {
    match real_selected(app.queue_state.state.selected, app.queue_state.search) {
        Some(i) => if i < app.musing_state.queue@.len() {
            Some(app.musing_state.queue@[i as int].id)
        } else {
            None
        },
        None => None,
    }
}

/// The request that a message gives rise to, if any.
pub open spec fn request_for(app: App, msg: Message) -> Option<MusingRequestView> {
    match msg {
        Message::Update(update) => match update {
            AppUpdate::MusingUpdate => Some(MusingRequestView::Update),
            AppUpdate::AddToQueue => match app.library_state.selection() {
                Some(paths) => Some(MusingRequestView::AddToQueue(paths)),
                None => None,
            },
            AppUpdate::Play => match selected_song(app) {
                Some(id) => Some(MusingRequestView::Play(id)),
                None => None,
            },
            AppUpdate::RemoveFromQueue => match selected_song(app) {
                Some(id) => Some(MusingRequestView::Remove(id)),
                None => None,
            },
            AppUpdate::Seek(seconds) => Some(MusingRequestView::Seek(seconds)),
            AppUpdate::Speed(delta) => Some(MusingRequestView::Speed(delta)),
            AppUpdate::Volume(delta) => Some(MusingRequestView::Volume(delta)),
            other => match other.kind() {
                Some(kind) => Some(MusingRequestView::Other(kind)),
                None => None,
            },
        },
        _ => None,
    }
}

/// The queue with another selection and nothing else changed.
pub open spec fn queue_moved(before: QueueState, cursor: Option<usize>, after: QueueState) -> bool {
    after == (QueueState { state: TableState { selected: cursor }, ..before })
}

/// The queue with its search changed and nothing else.
pub open spec fn queue_search_changed(
    before: QueueState,
    after: QueueState,
    change: spec_fn(Search, Search) -> bool,
) -> bool {
    &&& after.state == before.state
    &&& after.metadata == before.metadata
    &&& after.displayed_tags == before.displayed_tags
    &&& change(before.search, after.search)
}

/// The library with the search that has the focus changed and nothing else.
pub open spec fn library_search_changed(
    before: LibraryState,
    after: LibraryState,
    change: spec_fn(Search, Search) -> bool,
) -> bool {
    &&& before.same_groups(after)
    &&& after.state == before.state
    &&& after.focused_part == before.focused_part
    &&& match before.focused_part {
        FocusedPart::Groups => after.children == before.children && change(before.search, after.search),
        FocusedPart::Child(i) => after.search == before.search && forall|k: int|
            0 <= k < before.children@.len() ==> {
                let child = #[trigger] after.children@[k];
                &&& child.state == before.children@[k].state
                &&& if k == i {
                    change(before.children@[k].search, child.search)
                } else {
                    child.search == before.children@[k].search
                }
            },
    }
}

/// The lists after a change of the search that has the focus.
pub open spec fn search_changed(before: App, after: App, change: spec_fn(Search, Search) -> bool) -> bool {
    match before.screen {
        Screen::Queue => after.library_state == before.library_state && queue_search_changed(
            before.queue_state,
            after.queue_state,
            change,
        ),
        Screen::Library => after.queue_state == before.queue_state && library_search_changed(
            before.library_state,
            after.library_state,
            change,
        ),
        Screen::Cover => after.queue_state == before.queue_state && after.library_state
            == before.library_state,
    }
}

/// The lists after a search was started in the list that has the focus,
/// from its first row.
pub open spec fn search_started(before: App, after: App) -> bool {
    match before.screen {
        Screen::Queue => {
            &&& after.library_state == before.library_state
            &&& after.queue_state.state.selected == Some(0usize)
            &&& after.queue_state.metadata == before.queue_state.metadata
            &&& after.queue_state.displayed_tags == before.queue_state.displayed_tags
            &&& before.queue_state.search.started(before.queue_state.reprs(), after.queue_state.search)
        },
        Screen::Library => after.queue_state == before.queue_state && match before.library_state.focused_part {
            FocusedPart::Groups => before.library_state.search_started(after.library_state),
            FocusedPart::Child(i) => {
                &&& before.library_state.same_groups(after.library_state)
                &&& after.library_state.state == before.library_state.state
                &&& after.library_state.focused_part == before.library_state.focused_part
                &&& after.library_state.search == before.library_state.search
                &&& forall|k: int|
                    0 <= k < before.library_state.children@.len() ==> {
                        let child = #[trigger] after.library_state.children@[k];
                        if k == i {
                            &&& child.state.selected == Some(0usize)
                            &&& before.library_state.children@[k].search.started(
                                before.library_state.children@[k].reprs(),
                                child.search,
                            )
                        } else {
                            child == before.library_state.children@[k]
                        }
                    }
            },
        },
        Screen::Cover => after.queue_state == before.queue_state && after.library_state
            == before.library_state,
    }
}

/// The lists after the selection of the list that has the focus was set.
pub open spec fn cursor_set(before: App, after: App, queue_cursor: Option<usize>, library_cursor: Option<usize>) -> bool {
    match before.screen {
        Screen::Queue => after.library_state == before.library_state && queue_moved(
            before.queue_state,
            queue_cursor,
            after.queue_state,
        ),
        Screen::Library => after.queue_state == before.queue_state && before.library_state.moved_to(
            library_cursor,
            after.library_state,
        ),
        Screen::Cover => after.queue_state == before.queue_state && after.library_state
            == before.library_state,
    }
}

/// The last row of a list of `rows` rows, or the first where it has none.
pub open spec fn last_row(rows: nat) -> usize {
    if rows == 0 {
        0
    } else {
        (rows - 1) as usize
    }
}

/// The lists after a change that a key asked for.
pub open spec fn lists_updated(before: App, update: AppUpdate, after: App) -> bool {
    match update {
        AppUpdate::Scroll(delta) => match before.screen {
            Screen::Queue => after.library_state == before.library_state && (if can_scroll(
                before.queue_state.cursor(),
                before.queue_state.rows(),
                delta,
            ) {
                queue_moved(
                    before.queue_state,
                    scrolled(before.queue_state.cursor(), before.queue_state.rows(), delta),
                    after.queue_state,
                )
            } else {
                after.queue_state == before.queue_state
            }),
            Screen::Library => after.queue_state == before.queue_state && (if can_scroll(
                before.library_state.cursor(),
                before.library_state.rows(),
                delta,
            ) {
                before.library_state.scroll_step(delta, after.library_state)
            } else {
                after.library_state == before.library_state
            }),
            Screen::Cover => after.queue_state == before.queue_state && after.library_state
                == before.library_state,
        },
        AppUpdate::ScrollTop => cursor_set(before, after, Some(0usize), Some(0usize)),
        AppUpdate::ScrollBottom => cursor_set(
            before,
            after,
            Some(last_row(before.queue_state.rows())),
            Some(last_row(before.library_state.rows())),
        ),
        AppUpdate::StartSearch => search_started(before, after),
        AppUpdate::EndSearch => search_changed(before, after, |a: Search, b: Search| a.ended(b)),
        AppUpdate::IdleSearch => search_changed(before, after, |a: Search, b: Search| a.idled(b)),
        AppUpdate::UpdateSearch => search_changed(
            before,
            after,
            |a: Search, b: Search| a.told(SearchMessageView::NewPattern(a.input@), b),
        ),
        AppUpdate::FocusLeft => after.queue_state == before.queue_state && (if before.screen
            == Screen::Library {
            before.library_state.focused_left(after.library_state)
        } else {
            after.library_state == before.library_state
        }),
        AppUpdate::FocusRight => after.queue_state == before.queue_state && (if before.screen
            == Screen::Library {
            before.library_state.focused_right(after.library_state)
        } else {
            after.library_state == before.library_state
        }),
        _ => after.queue_state == before.queue_state && after.library_state == before.library_state,
    }
}

/// The program after a message: the status line is cleared, a switch is
/// made, and a change is made to the list that has the focus. What the
/// server is to do stands in the request, not in the state.
pub open spec fn updated(before: App, msg: Message, after: App) -> bool {
    &&& after.status_msg.is_none()
    &&& after.config == before.config
    &&& after.musing_state == before.musing_state
    &&& after.key_events == before.key_events
    &&& after.screen == (match msg {
        Message::SwitchScreen(screen) => screen,
        _ => before.screen,
    })
    &&& after.app_state == (match msg {
        Message::SwitchAppState(app_state) => app_state,
        _ => before.app_state,
    })
    &&& match msg {
        Message::Update(update) => lists_updated(before, update, after),
        _ => after.queue_state == before.queue_state && after.library_state == before.library_state,
    }
}

/// The request that starts bringing the library up to date: first the
/// server's database is brought up to date; the songs are asked for when
/// the reply to that has come.
pub fn update_library(app: &mut App) -> (r: MusingRequest)
    ensures
        r@ == MusingRequestView::Update,
        *final(app) == *old(app),
{
    MusingRequest::Update
}

/// Carries out a message, and gives the request that it asks for, if any.
pub fn update_app(app: &mut App, msg: Message) -> (r: Option<MusingRequest>)
    requires
        old(app).wf(),
    ensures
        final(app).wf(),
        updated(*old(app), msg, *final(app)),
        match r {
            Some(request) => request_for(*old(app), msg) == Some(request@),
            None => request_for(*old(app), msg).is_none(),
        },
{
    app.status_msg = None;
    match msg {
        Message::SwitchScreen(screen) => {
            app.screen = screen;
            None
        },
        Message::SwitchAppState(app_state) => {
            app.app_state = app_state;
            None
        },
        Message::Update(update) => match update {
            AppUpdate::MusingUpdate => Some(update_library(app)),
            AppUpdate::Scroll(delta) => {
                match app.screen {
                    Screen::Queue => {
                        if scroll_allowed(&app.queue_state.state, app.queue_state.metadata.len(), delta) {
                            app.queue_state.scroll(delta);
                        }
                    },
                    Screen::Library => {
                        if library_scroll_allowed(&app.library_state, delta) {
                            app.library_state.scroll(delta);
                        }
                    },
                    _ => (),
                }
                None
            },
            AppUpdate::ScrollTop => {
                match app.screen {
                    Screen::Queue => app.queue_state.scroll_to_top(),
                    Screen::Library => app.library_state.scroll_to_top(),
                    _ => (),
                }
                None
            },
            AppUpdate::ScrollBottom => {
                match app.screen {
                    Screen::Queue => app.queue_state.scroll_to_bottom(),
                    Screen::Library => app.library_state.scroll_to_bottom(),
                    _ => (),
                }
                None
            },
            AppUpdate::StartSearch => {
                match app.screen {
                    Screen::Queue => app.queue_state.search_on(),
                    Screen::Library => match app.library_state.focused_part {
                        FocusedPart::Groups => app.library_state.search_on(),
                        FocusedPart::Child(i) => {
                            app.library_state.children[i].search_on();
                        },
                    },
                    _ => (),
                }
                None
            },
            AppUpdate::EndSearch => {
                match app.screen {
                    Screen::Queue => app.queue_state.search.off(),
                    Screen::Library => match app.library_state.focused_part {
                        FocusedPart::Groups => app.library_state.search.off(),
                        FocusedPart::Child(i) => {
                            app.library_state.children[i].search.off();
                        },
                    },
                    _ => (),
                }
                None
            },
            AppUpdate::IdleSearch => {
                match app.screen {
                    Screen::Queue => app.queue_state.search.idle(),
                    Screen::Library => match app.library_state.focused_part {
                        FocusedPart::Groups => app.library_state.search.idle(),
                        FocusedPart::Child(i) => {
                            app.library_state.children[i].search.idle();
                        },
                    },
                    _ => (),
                }
                None
            },
            AppUpdate::UpdateSearch => {
                match app.screen {
                    Screen::Queue => {
                        let pattern = app.queue_state.search.input.clone();
                        app.queue_state.search.pattern_update(pattern);
                    },
                    Screen::Library => match app.library_state.focused_part {
                        FocusedPart::Groups => {
                            let pattern = app.library_state.search.input.clone();
                            app.library_state.search.pattern_update(pattern);
                        },
                        FocusedPart::Child(i) => {
                            let pattern = app.library_state.children[i].search.input.clone();
                            app.library_state.children[i].search.pattern_update(pattern);
                        },
                    },
                    _ => (),
                }
                None
            },
            AppUpdate::FocusLeft => {
                if let Screen::Library = app.screen {
                    app.library_state.focus_left();
                }
                None
            },
            AppUpdate::FocusRight => {
                if let Screen::Library = app.screen {
                    app.library_state.focus_right();
                }
                None
            },
            AppUpdate::AddToQueue => match app.library_state.selected_songs() {
                Some(songs) => Some(MusingRequest::AddToQueue(copy_texts(songs))),
                None => None,
            },
            AppUpdate::Play => match selected_song_id(app) {
                Some(id) => Some(MusingRequest::Play(id)),
                None => None,
            },
            AppUpdate::RemoveFromQueue => match selected_song_id(app) {
                Some(id) => Some(MusingRequest::Remove(id)),
                None => None,
            },
            AppUpdate::Seek(seconds) => Some(MusingRequest::Seek(seconds)),
            AppUpdate::Speed(speed) => Some(MusingRequest::Speed(speed)),
            AppUpdate::Volume(delta) => Some(MusingRequest::Volume(delta)),
            other => match other.kind_name() {
                Some(kind) => Some(MusingRequest::Other(kind.to_string())),
                None => None,
            },
        },
    }
}

/// Whether a scroll step can be taken in the library.
fn library_scroll_allowed(library: &LibraryState, delta: i32) -> (r: bool)
    requires
        library.steady(),
    ensures
        r == can_scroll(library.cursor(), library.rows(), delta),
{
    match library.focused_part {
        FocusedPart::Groups => scroll_allowed(&library.state, library.children.len(), delta),
        FocusedPart::Child(i) => scroll_allowed(
            &library.children[i].state,
            library.children[i].group.paths.len(),
            delta,
        ),
    }
}

/// The id of the song of the queue that is selected.
fn selected_song_id(app: &App) -> (r: Option<u64>)
    ensures
        r == selected_song(*app),
{
    match app.queue_state.unordered_selected() {
        Some(i) => if i < app.musing_state.queue.len() {
            Some(app.musing_state.queue[i].id)
        } else {
            None
        },
        None => None,
    }
}

/// The paths of the songs of a queue.
pub open spec fn queue_paths(queue: Seq<MusingSongView>) -> Seq<Seq<char>> {
    queue.map_values(|song: MusingSongView| song.path)
}

/// What the rest of the program has to do after a delta: ask for the tags of
/// the songs where the queue is new, and show the cover art where it is new.
pub struct StateEffect {
    pub request: Option<MusingRequest>,
    pub cover_art_changed: bool,
}

/// The request for the tags of the songs of the queue.
pub fn update_queue(app: &mut App) -> (r: MusingRequest)
    ensures
        r@ == MusingRequestView::Metadata(queue_paths(old(app).musing_state@.queue), None),
        *final(app) == *old(app),
{
    let mut paths: Vec<String> = Vec::new();
    let mut i: usize = 0;
    while i < app.musing_state.queue.len()
        invariant
            *app == *old(app),
            i <= app.musing_state.queue@.len(),
            paths@.len() == i,
            forall|k: int| 0 <= k < i ==> (#[trigger] paths@[k])@ == app.musing_state.queue@[k].path@,
        decreases app.musing_state.queue@.len() - i,
    {
        paths.push(app.musing_state.queue[i].path.clone());
        i += 1;
    }
    assert(texts(paths@) =~= queue_paths(app.musing_state@.queue));
    MusingRequest::Metadata(paths, None)
}

/// Takes a delta of the server's state over: each field that the delta
/// reports is set, and each other field stays as it is.
pub fn update_state(app: &mut App, delta: MusingStateDelta) -> (r: StateEffect)
    ensures
        final(app).musing_state@ == old(app).musing_state@.merge(delta@),
        *final(app) == (App { musing_state: final(app).musing_state, ..*old(app) }),
        r.cover_art_changed == delta.cover_art.is_some(),
        match r.request {
            Some(request) => delta@.queue matches Some(queue) && request@ == MusingRequestView::Metadata(
                queue_paths(queue),
                None,
            ),
            None => delta.queue.is_none(),
        },
{
    let cover_art_changed = delta.cover_art.is_some();
    let queue_changed = delta.queue.is_some();
    app.musing_state.apply(delta);
    let request = if queue_changed {
        Some(update_queue(app))
    } else {
        None
    };
    StateEffect { request, cover_art_changed }
}

/// The program after a response of the server.
pub open spec fn responded(before: App, response: MusingResponse, after: App) -> bool {
    &&& after.config == before.config
    &&& after.key_events == before.key_events
    &&& after.screen == before.screen
    &&& after.app_state == before.app_state
    &&& match response {
        MusingResponse::Error(reason) => {
            &&& after.status_msg matches Some(text)
            &&& text@ == reason@
            &&& after.musing_state == before.musing_state
            &&& after.queue_state == before.queue_state
            &&& after.library_state == before.library_state
        },
        MusingResponse::Metadata(rows) => {
            &&& after.status_msg == before.status_msg
            &&& after.musing_state == before.musing_state
            &&& after.library_state == before.library_state
            &&& after.queue_state.state == before.queue_state.state
            &&& after.queue_state.displayed_tags == before.queue_state.displayed_tags
            &&& after.queue_state.metadata == rows
            &&& before.queue_state.search.relisted(after.queue_state.reprs(), after.queue_state.search)
        },
        MusingResponse::GroupedSongs(groups) => {
            &&& after.status_msg == before.status_msg
            &&& after.musing_state == before.musing_state
            &&& after.queue_state == before.queue_state
            &&& after.library_state.children@.len() == groups@.len()
            &&& crate::model::library::sorted_children(after.library_state.children@)
            &&& forall|k: int|
                0 <= k < after.library_state.children@.len() ==> (
                #[trigger] after.library_state.children@[k]).fresh() && crate::model::library::is_group_of(
                    after.library_state.children@[k],
                    groups@,
                )
            &&& forall|j: int|
                0 <= j < groups@.len() ==> crate::model::library::has_group(
                    after.library_state.children@,
                    #[trigger] groups@[j],
                )
            &&& after.library_state.focused_part == FocusedPart::Groups
            &&& before.library_state.search.relisted(
                after.library_state.reprs(),
                after.library_state.search,
            )
            &&& after.library_state.group_by_tags == before.library_state.group_by_tags
            &&& after.library_state.children_tags == before.library_state.children_tags
            &&& after.library_state.state.selected == (if groups@.len() == 0 {
                None
            } else {
                Some(
                    match before.library_state.state.selected {
                        Some(i) => if i < groups@.len() {
                            i
                        } else {
                            (groups@.len() - 1) as usize
                        },
                        None => 0usize,
                    },
                )
            })
        },
        MusingResponse::StateDelta(delta) => {
            &&& after.status_msg == before.status_msg
            &&& after.queue_state == before.queue_state
            &&& after.library_state == before.library_state
            &&& after.musing_state@ == before.musing_state@.merge(delta@)
        },
        MusingResponse::Update(summary) => {
            &&& after.status_msg matches Some(text)
            &&& text@ == summary@
            &&& after.musing_state == before.musing_state
            &&& after.queue_state == before.queue_state
            &&& after.library_state == before.library_state
        },
    }
}

/// The request that a response gives rise to: the tags of the songs of a
/// new queue, and the songs of the library once the server's database is up
/// to date.
pub open spec fn request_after(before: App, response: MusingResponse) -> Option<MusingRequestView> {
    match response {
        MusingResponse::StateDelta(delta) => match delta@.queue {
            Some(queue) => Some(MusingRequestView::Metadata(queue_paths(queue), None)),
            None => None,
        },
        MusingResponse::Update(_) => Some(
            MusingRequestView::GroupedSongs(
                texts(before.library_state.group_by_tags@),
                texts(before.library_state.children_tags@),
            ),
        ),
        _ => None,
    }
}

/// Takes a response of the server over.
pub fn update_on_response(app: &mut App, response: MusingResponse) -> (r: StateEffect)
    ensures
        old(app).wf() ==> final(app).wf(),
        responded(*old(app), response, *final(app)),
        match r.request {
            Some(request) => request_after(*old(app), response) == Some(request@),
            None => request_after(*old(app), response).is_none(),
        },
        r.cover_art_changed == (response matches MusingResponse::StateDelta(delta)
            && delta.cover_art.is_some()),
{
    match response {
        MusingResponse::Error(reason) => {
            app.status_msg = Some(reason);
            StateEffect { request: None, cover_art_changed: false }
        },
        MusingResponse::Metadata(rows) => {
            app.queue_state.metadata = rows;
            let list = app.queue_state.metadata_to_repr();
            app.queue_state.search.list_changed(list);
            StateEffect { request: None, cover_art_changed: false }
        },
        MusingResponse::GroupedSongs(groups) => {
            app.library_state.update(groups);
            StateEffect { request: None, cover_art_changed: false }
        },
        MusingResponse::StateDelta(delta) => update_state(app, delta),
        MusingResponse::Update(summary) => {
            app.status_msg = Some(summary);
            let request = MusingRequest::GroupedSongs(
                copy_texts(app.library_state.group_by_tags.as_slice()),
                copy_texts(app.library_state.children_tags.as_slice()),
            );
            StateEffect { request: Some(request), cover_art_changed: false }
        },
    }
}

} // verus!
