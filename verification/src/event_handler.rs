use vstd::prelude::*;
use crate::app::{App, AppState, Screen};
use crate::model::common::FocusedPart;
use crate::model::connection::{MusingRequest, MusingRequestView, MusingResponse};
use crate::model::keybind::{KeyEvent, KeyEventKind};
use crate::update::{
    request_after,
    request_for,
    responded,
    translate_key_event,
    typed,
    update_app,
    update_on_response,
    updated,
    AppUpdate,
    Message,
};

verus! {

// in ms
pub const REFRESH_TIMEOUT: u64 = 125;

pub const POLL_TIMEOUT: u64 = 16;

/// What happens to the program.
#[derive(Debug, PartialEq, Eq)]
pub enum Event {
    /// A key was pressed.
    Keypress(KeyEvent),
    /// The cover art was fitted to its place, or could not be.
    CoverArtResize(bool),
    /// It is time to ask the server for its state.
    Refresh,
    /// The server answered.
    MusingResponse(MusingResponse),
}

/// What one turn of the polling loop sends.
#[derive(Clone, Copy, Debug, PartialEq, Eq, Structural)]
pub struct Polled {
    /// The key to send as a key press.
    pub keypress: Option<KeyEvent>,
    /// Whether a refresh is sent after it.
    pub refresh: bool,
    /// The time of the last refresh after this turn.
    pub last_refresh: u64,
}

/// One turn of the polling loop. A key event that was read is sent on if it
/// is a press. A refresh is sent when at least `REFRESH_TIMEOUT` milliseconds
/// have gone by since the last one.
pub fn run(last_refresh: u64, now: u64, read: Option<KeyEvent>) -> (r: Polled)
    ensures
        r.keypress == match read {
            Some(ev) => if ev.kind == KeyEventKind::Press {
                Some(ev)
            } else {
                None
            },
            None => None,
        },
        r.refresh == (now - last_refresh >= REFRESH_TIMEOUT),
        r.last_refresh == (if r.refresh {
            now
        } else {
            last_refresh
        }),
{
    let keypress = match read {
        Some(ev) => match ev.kind {
            KeyEventKind::Press => Some(ev),
            _ => None,
        },
        None => None,
    };
    let refresh = now >= last_refresh && now - last_refresh >= REFRESH_TIMEOUT;
    Polled {
        keypress,
        refresh,
        last_refresh: if refresh {
            now
        } else {
            last_refresh
        },
    }
}

/// What is to be done with the cover art.
#[derive(Clone, Copy, Debug, PartialEq, Eq, Structural)]
pub enum CoverArt {
    /// Nothing.
    Keep,
    /// The cover art of the state is new: it is to be read and fitted.
    Replace,
    /// The fitted cover art is to be shown.
    Show,
}

/// What the rest of the program has to do after an event.
#[derive(Debug, PartialEq, Eq)]
pub struct Reaction {
    /// The request to hand to the connection.
    pub request: Option<MusingRequest>,
    /// Whether the key goes to the pattern of the search that has the focus;
    /// the pattern as it is afterwards is then handed to `search_edited`.
    pub edit_search: bool,
    pub cover_art: CoverArt,
    /// Whether the program has to end with an error.
    pub fatal: bool,
}

impl App {
    /// The request with which the program starts: the library is brought up
    /// to date.
    pub fn start(&self) -> (r: MusingRequest)
        ensures
            r@ == MusingRequestView::Update,
    {
        MusingRequest::Update
    }

    /// Whether the program is done.
    pub fn is_done(&self) -> (r: bool)
        ensures
            r == (self.app_state == AppState::Done),
    {
        match self.app_state {
            AppState::Done => true,
            AppState::Running => false,
        }
    }

    /// Takes one event: the state changes, and at most one request is asked
    /// for.
    pub fn handle_event(&mut self, event: Event) -> (r: Reaction)
        requires
            old(self).wf(),
        ensures
            final(self).wf(),
            match event {
                Event::Keypress(ev) => {
                    let pressed = App { key_events: final(self).key_events, ..*old(self) };
                    let msg = match typed(*old(self), ev) {
                        Some(binding) => old(self).message(binding),
                        None => None,
                    };
                    &&& final(self).key_events@ == (match typed(*old(self), ev) {
                        Some(_) => Seq::<KeyEvent>::empty(),
                        None => old(self).key_events@.push(ev),
                    })
                    &&& r.cover_art == CoverArt::Keep
                    &&& !r.fatal
                    &&& match msg {
                        None => *final(self) == pressed && r.request.is_none() && !r.edit_search,
                        Some(Message::Update(AppUpdate::UpdateSearch)) => {
                            &&& *final(self) == pressed
                            &&& r.request.is_none()
                            &&& r.edit_search
                        },
                        Some(msg) => {
                            &&& updated(pressed, msg, *final(self))
                            &&& !r.edit_search
                            &&& match r.request {
                                Some(request) => request_for(pressed, msg) == Some(request@),
                                None => request_for(pressed, msg).is_none(),
                            }
                        },
                    }
                },
                Event::CoverArtResize(fitted) => {
                    &&& *final(self) == *old(self)
                    &&& r.request.is_none()
                    &&& !r.edit_search
                    &&& r.fatal == !fitted
                    &&& r.cover_art == (if fitted {
                        CoverArt::Show
                    } else {
                        CoverArt::Keep
                    })
                },
                Event::Refresh => {
                    &&& *final(self) == *old(self)
                    &&& r.request matches Some(request)
                    &&& request@ == MusingRequestView::StateDelta
                    &&& !r.edit_search
                    &&& !r.fatal
                    &&& r.cover_art == CoverArt::Keep
                },
                Event::MusingResponse(response) => {
                    &&& responded(*old(self), response, *final(self))
                    &&& match r.request {
                        Some(request) => request_after(*old(self), response) == Some(request@),
                        None => request_after(*old(self), response).is_none(),
                    }
                    &&& !r.edit_search
                    &&& !r.fatal
                    &&& r.cover_art == (if response matches MusingResponse::StateDelta(delta)
                        && delta.cover_art.is_some() {
                        CoverArt::Replace
                    } else {
                        CoverArt::Keep
                    })
                },
            },
    {
        match event {
            Event::Keypress(ev) => {
                match translate_key_event(self, ev) {
                    Some(Message::Update(AppUpdate::UpdateSearch)) => Reaction {
                        request: None,
                        edit_search: true,
                        cover_art: CoverArt::Keep,
                        fatal: false,
                    },
                    Some(msg) => {
                        let request = update_app(self, msg);
                        Reaction { request, edit_search: false, cover_art: CoverArt::Keep, fatal: false }
                    },
                    None => Reaction {
                        request: None,
                        edit_search: false,
                        cover_art: CoverArt::Keep,
                        fatal: false,
                    },
                }
            },
            Event::CoverArtResize(fitted) => Reaction {
                request: None,
                edit_search: false,
                cover_art: if fitted {
                    CoverArt::Show
                } else {
                    CoverArt::Keep
                },
                fatal: !fitted,
            },
            Event::Refresh => Reaction {
                request: Some(MusingRequest::StateDelta),
                edit_search: false,
                cover_art: CoverArt::Keep,
                fatal: false,
            },
            Event::MusingResponse(response) => {
                let effect = update_on_response(self, response);
                Reaction {
                    request: effect.request,
                    edit_search: false,
                    cover_art: if effect.cover_art_changed {
                        CoverArt::Replace
                    } else {
                        CoverArt::Keep
                    },
                    fatal: false,
                }
            },
        }
    }

    /// Takes the pattern of the search that has the focus as it is after a
    /// key went to it, and tells the worker of the search.
    pub fn search_edited(&mut self, pattern: String)
        requires
            old(self).wf(),
        ensures
            final(self).wf(),
            exists|edited: App|
                {
                    &&& old(self).pattern_set(pattern@, edited)
                    &&& updated(edited, Message::Update(AppUpdate::UpdateSearch), *final(self))
                },
    {
        match self.screen {
            Screen::Queue => {
                self.queue_state.search.input = pattern;
            },
            Screen::Library => match self.library_state.focused_part {
                FocusedPart::Groups => {
                    self.library_state.search.input = pattern;
                },
                FocusedPart::Child(i) => {
                    self.library_state.children[i].search.input = pattern;
                },
            },
            Screen::Cover => {},
        }
        let ghost edited = *self;
        assert(old(self).pattern_set(pattern@, edited));
        let request = update_app(self, Message::Update(AppUpdate::UpdateSearch));
    }

    /// The program with the pattern of the search that has the focus set,
    /// and nothing else changed.
    pub open spec fn pattern_set(self, pattern: Seq<char>, after: App) -> bool {
        &&& after.config == self.config
        &&& after.key_events == self.key_events
        &&& after.screen == self.screen
        &&& after.app_state == self.app_state
        &&& after.status_msg == self.status_msg
        &&& after.musing_state == self.musing_state
        &&& crate::update::search_changed(
            self,
            after,
            |a: crate::model::search::Search, b: crate::model::search::Search|
                b.input@ == pattern && b.tx == a.tx && b.result == a.result && b.state == a.state
                    && b.session == a.session,
        )
    }
}

} // verus!
