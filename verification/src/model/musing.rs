use vstd::prelude::*;
use crate::error::{MusingError, MusingErrorView};
use crate::json::{items_view, lemma_items_view, Json, JsonView};
use crate::text::same_text;

verus! {

#[derive(Clone, Copy, Debug, PartialEq, Eq, Structural)]
pub enum PlaybackState {
    Stopped,
    Playing,
    Paused,
}

#[derive(Clone, Copy, Debug, PartialEq, Eq, Structural)]
pub enum PlaybackMode {
    Single,
    Sequential,
    Random,
}

impl Default for PlaybackState {
    fn default() -> (r: PlaybackState)
        ensures
            r == PlaybackState::Stopped,
    {
        PlaybackState::Stopped
    }
}

impl Default for PlaybackMode {
    fn default() -> (r: PlaybackMode)
        ensures
            r == PlaybackMode::Single,
    {
        PlaybackMode::Single
    }
}

impl PlaybackState {
    /// The name of the state on the wire and on the screen.
    pub open spec fn name(self) -> Seq<char> {
        match self {
            PlaybackState::Stopped => "stopped"@,
            PlaybackState::Playing => "playing"@,
            PlaybackState::Paused => "paused"@,
        }
    }

    /// The state that a name stands for.
    pub open spec fn named(name: Seq<char>) -> Option<PlaybackState> {
        if name == "stopped"@ {
            Some(PlaybackState::Stopped)
        } else if name == "playing"@ {
            Some(PlaybackState::Playing)
        } else if name == "paused"@ {
            Some(PlaybackState::Paused)
        } else {
            None
        }
    }

    /// The state that a JSON value stands for: a string that names one.
    pub open spec fn of_json(value: JsonView) -> Option<PlaybackState> {
        match value {
            JsonView::Text(name) => Self::named(name),
            _ => None,
        }
    }

    pub fn to_string(&self) -> (r: String)
        ensures
            r@ == self.name(),
    {
        match self {
            PlaybackState::Stopped => "stopped".to_string(),
            PlaybackState::Playing => "playing".to_string(),
            PlaybackState::Paused => "paused".to_string(),
        }
    }

    pub fn from_json(value: &Json) -> (r: Option<PlaybackState>)
        ensures
            r == Self::of_json(value@),
    {
        match value.as_str() {
            Some(name) => {
                if same_text(name, "stopped") {
                    Some(PlaybackState::Stopped)
                } else if same_text(name, "playing") {
                    Some(PlaybackState::Playing)
                } else if same_text(name, "paused") {
                    Some(PlaybackState::Paused)
                } else {
                    None
                }
            },
            None => None,
        }
    }
}

impl PlaybackMode {
    /// The name of the mode on the wire.
    pub open spec fn name(self) -> Seq<char> {
        match self {
            PlaybackMode::Sequential => "sequential"@,
            PlaybackMode::Single => "single"@,
            PlaybackMode::Random => "random"@,
        }
    }

    /// The three letters that show the mode on the screen, the one of the
    /// current mode in upper case.
    pub open spec fn letters(self) -> Seq<char> {
        match self {
            PlaybackMode::Sequential => "W e r"@,
            PlaybackMode::Single => "w E r"@,
            PlaybackMode::Random => "w e R"@,
        }
    }

    /// The mode that a name stands for.
    pub open spec fn named(name: Seq<char>) -> Option<PlaybackMode> {
        if name == "sequential"@ {
            Some(PlaybackMode::Sequential)
        } else if name == "single"@ {
            Some(PlaybackMode::Single)
        } else if name == "random"@ {
            Some(PlaybackMode::Random)
        } else {
            None
        }
    }

    /// The mode that a JSON value stands for: a string that names one.
    pub open spec fn of_json(value: JsonView) -> Option<PlaybackMode> {
        match value {
            JsonView::Text(name) => Self::named(name),
            _ => None,
        }
    }

    pub fn to_string(&self) -> (r: String)
        ensures
            r@ == self.letters(),
    {
        match self {
            PlaybackMode::Sequential => "W e r".to_string(),
            PlaybackMode::Single => "w E r".to_string(),
            PlaybackMode::Random => "w e R".to_string(),
        }
    }

    pub fn from_json(value: &Json) -> (r: Option<PlaybackMode>)
        ensures
            r == Self::of_json(value@),
    {
        match value.as_str() {
            Some(name) => {
                if same_text(name, "sequential") {
                    Some(PlaybackMode::Sequential)
                } else if same_text(name, "single") {
                    Some(PlaybackMode::Single)
                } else if same_text(name, "random") {
                    Some(PlaybackMode::Random)
                } else {
                    None
                }
            },
            None => None,
        }
    }
}

/// A song of the queue.
#[derive(Debug, PartialEq, Eq)]
pub struct MusingSong {
    pub id: u64,
    pub path: String,
}

/// The mathematical value of a [`MusingSong`].
pub struct MusingSongView {
    pub id: u64,
    pub path: Seq<char>,
}

impl View for MusingSong {
    type V = MusingSongView;

    open spec fn view(&self) -> MusingSongView {
        MusingSongView { id: self.id, path: self.path@ }
    }
}

/// The songs of a list, each by its value.
pub open spec fn songs_view(songs: Seq<MusingSong>) -> Seq<MusingSongView> {
    songs.map_values(|song: MusingSong| song@)
}

/// The song that a JSON value stands for: an object with a numeric `id`
/// and a textual `path`.
pub open spec fn song_of(value: JsonView) -> Result<MusingSongView, MusingErrorView> {
    if !(value is Object) {
        Err(MusingErrorView::ExpectedObject)
    } else {
        match value.field("id"@) {
            Some(JsonView::Unsigned(id)) => match value.field("path"@) {
                Some(JsonView::Text(path)) => Ok(MusingSongView { id, path }),
                _ => Err(MusingErrorView::ExpectedPath),
            },
            _ => Err(MusingErrorView::ExpectedId),
        }
    }
}

/// The songs that a list of JSON values stands for, if each of them stands
/// for one.
pub open spec fn songs_of(items: Seq<JsonView>) -> Option<Seq<MusingSongView>> {
    if forall|i: int| 0 <= i < items.len() ==> (#[trigger] song_of(items[i])) is Ok {
        Some(Seq::new(items.len(), |i: int| song_of(items[i])->Ok_0))
    } else {
        None
    }
}

impl MusingSong {
    pub fn try_from(value: &Json) -> (r: Result<MusingSong, MusingError>)
        ensures
            match r {
                Ok(song) => song_of(value@) == Ok::<MusingSongView, MusingErrorView>(song@),
                Err(e) => song_of(value@) == Err::<MusingSongView, MusingErrorView>(e@),
            },
    {
        if !value.is_object() {
            return Err(MusingError::ExpectedObject);
        }
        let id = match value.get("id") {
            Some(x) => match x.as_u64() {
                Some(id) => id,
                None => {
                    return Err(MusingError::ExpectedId);
                },
            },
            None => {
                return Err(MusingError::ExpectedId);
            },
        };
        let path = match value.get("path") {
            Some(x) => match x.as_str() {
                Some(path) => path.to_string(),
                None => {
                    return Err(MusingError::ExpectedPath);
                },
            },
            None => {
                return Err(MusingError::ExpectedPath);
            },
        };
        Ok(MusingSong { id, path })
    }
}

/// All that is known of the server's state.
#[derive(Debug, PartialEq, Eq)]
pub struct MusingState {
    pub playback_state: PlaybackState,
    pub playback_mode: PlaybackMode,
    pub volume: u64,
    pub speed: u64,
    pub gapless: bool,
    pub queue: Vec<MusingSong>,
    pub current: Option<u64>,
    pub cover_art: Option<String>,  // base64 encoded
    pub timer: Option<(u64, u64)>,
}

/// The mathematical value of a [`MusingState`].
pub struct MusingStateView {
    pub playback_state: PlaybackState,
    pub playback_mode: PlaybackMode,
    pub volume: u64,
    pub speed: u64,
    pub gapless: bool,
    pub queue: Seq<MusingSongView>,
    pub current: Option<u64>,
    pub cover_art: Option<Seq<char>>,
    pub timer: Option<(u64, u64)>,
}

/// The characters of a string that may be missing.
pub open spec fn text_view(s: Option<String>) -> Option<Seq<char>> {
    match s {
        Some(s) => Some(s@),
        None => None,
    }
}

impl View for MusingState {
    type V = MusingStateView;

    open spec fn view(&self) -> MusingStateView {
        MusingStateView {
            playback_state: self.playback_state,
            playback_mode: self.playback_mode,
            volume: self.volume,
            speed: self.speed,
            gapless: self.gapless,
            queue: songs_view(self.queue@),
            current: self.current,
            cover_art: text_view(self.cover_art),
            timer: self.timer,
        }
    }
}

impl MusingStateView {
    /// The state before anything was heard from the server.
    pub open spec fn initial() -> MusingStateView {
        MusingStateView {
            playback_state: PlaybackState::Stopped,
            playback_mode: PlaybackMode::Single,
            volume: 0,
            speed: 0,
            gapless: false,
            queue: Seq::empty(),
            current: None,
            cover_art: None,
            timer: None,
        }
    }

    /// The state after a delta: each field that the delta reports takes the
    /// reported value, and each other field stays.
    pub open spec fn merge(self, delta: MusingStateDeltaView) -> MusingStateView {
        MusingStateView {
            playback_state: match delta.playback_state {
                Some(x) => x,
                None => self.playback_state,
            },
            playback_mode: match delta.playback_mode {
                Some(x) => x,
                None => self.playback_mode,
            },
            volume: match delta.volume {
                Some(x) => x,
                None => self.volume,
            },
            speed: match delta.speed {
                Some(x) => x,
                None => self.speed,
            },
            gapless: match delta.gapless {
                Some(x) => x,
                None => self.gapless,
            },
            queue: match delta.queue {
                Some(x) => x,
                None => self.queue,
            },
            current: match delta.current {
                Some(x) => x,
                None => self.current,
            },
            cover_art: match delta.cover_art {
                Some(x) => x,
                None => self.cover_art,
            },
            timer: match delta.timer {
                Some(x) => Some(x),
                None => self.timer,
            },
        }
    }
}

impl Default for MusingState {
    fn default() -> (r: MusingState)
        ensures
            r@ == MusingStateView::initial(),
    {
        let r = MusingState {
            playback_state: PlaybackState::Stopped,
            playback_mode: PlaybackMode::Single,
            volume: 0,
            speed: 0,
            gapless: false,
            queue: Vec::new(),
            current: None,
            cover_art: None,
            timer: None,
        };
        assert(songs_view(r.queue@) =~= Seq::empty());
        r
    }
}

impl MusingState {
    pub fn is_stopped(&self) -> (r: bool)
        ensures
            r == (self.playback_state == PlaybackState::Stopped),
    {
        matches!(self.playback_state, PlaybackState::Stopped)
    }

    /// Takes over what the delta reports and keeps the rest.
    pub fn apply(&mut self, delta: MusingStateDelta)
        ensures
            final(self)@ == old(self)@.merge(delta@),
    {
        if let Some(playback_state) = delta.playback_state {
            self.playback_state = playback_state;
        }
        if let Some(playback_mode) = delta.playback_mode {
            self.playback_mode = playback_mode;
        }
        if let Some(volume) = delta.volume {
            self.volume = volume;
        }
        if let Some(speed) = delta.speed {
            self.speed = speed;
        }
        if let Some(gapless) = delta.gapless {
            self.gapless = gapless;
        }
        if let Some(current) = delta.current {
            self.current = current;
        }
        if let Some(cover_art) = delta.cover_art {
            self.cover_art = cover_art;
        }
        if delta.timer.is_some() {
            self.timer = delta.timer;
        }
        if let Some(queue) = delta.queue {
            self.queue = queue;
        }
    }
}

/// A partial update of the state: a field that is `None` was not reported
/// and stays as it is. For `current` and `cover_art`, `Some(None)` says that
/// the server reported that there is none.
#[derive(Debug, PartialEq, Eq)]
pub struct MusingStateDelta {
    pub playback_state: Option<PlaybackState>,
    pub playback_mode: Option<PlaybackMode>,
    pub volume: Option<u64>,
    pub speed: Option<u64>,
    pub gapless: Option<bool>,
    pub queue: Option<Vec<MusingSong>>,
    pub current: Option<Option<u64>>,
    pub cover_art: Option<Option<String>>,
    pub timer: Option<(u64, u64)>,
}

/// The mathematical value of a [`MusingStateDelta`].
pub struct MusingStateDeltaView {
    pub playback_state: Option<PlaybackState>,
    pub playback_mode: Option<PlaybackMode>,
    pub volume: Option<u64>,
    pub speed: Option<u64>,
    pub gapless: Option<bool>,
    pub queue: Option<Seq<MusingSongView>>,
    pub current: Option<Option<u64>>,
    pub cover_art: Option<Option<Seq<char>>>,
    pub timer: Option<(u64, u64)>,
}

impl View for MusingStateDelta {
    type V = MusingStateDeltaView;

    open spec fn view(&self) -> MusingStateDeltaView {
        MusingStateDeltaView {
            playback_state: self.playback_state,
            playback_mode: self.playback_mode,
            volume: self.volume,
            speed: self.speed,
            gapless: self.gapless,
            queue: match self.queue {
                Some(q) => Some(songs_view(q@)),
                None => None,
            },
            current: self.current,
            cover_art: match self.cover_art {
                Some(c) => Some(text_view(c)),
                None => None,
            },
            timer: self.timer,
        }
    }
}

impl MusingStateDeltaView {
    /// The delta that reports nothing.
    pub open spec fn empty() -> MusingStateDeltaView {
        MusingStateDeltaView {
            playback_state: None,
            playback_mode: None,
            volume: None,
            speed: None,
            gapless: None,
            queue: None,
            current: None,
            cover_art: None,
            timer: None,
        }
    }
}

impl Default for MusingStateDelta {
    fn default() -> (r: MusingStateDelta)
        ensures
            r@ == MusingStateDeltaView::empty(),
    {
        MusingStateDelta {
            playback_state: None,
            playback_mode: None,
            volume: None,
            speed: None,
            gapless: None,
            queue: None,
            current: None,
            cover_art: None,
            timer: None,
        }
    }
}

/// What a delta takes from a JSON value that is there or not: nothing where
/// it is missing or has no whole number in it.
pub open spec fn number_of(value: Option<JsonView>) -> Option<u64> {
    match value {
        Some(JsonView::Unsigned(n)) => Some(n),
        _ => None,
    }
}

/// The timer that a JSON value stands for: `elapsed` and `duration`, each 0
/// where it is missing or no whole number.
pub open spec fn timer_of(value: JsonView) -> (u64, u64) {
    (
        match number_of(value.field("elapsed"@)) {
            Some(n) => n,
            None => 0,
        },
        match number_of(value.field("duration"@)) {
            Some(n) => n,
            None => 0,
        },
    )
}

/// The delta that a reply to a state request stands for.
///
/// The reply has to be an object. A member that is missing leaves its field
/// unreported, and so does a `volume`, `speed`, `gapless` or `queue` of the
/// wrong shape. A `current` or `cover_art` that is there is always reported:
/// as none where it is `null` (or of the wrong shape). A `playback_state` or
/// `playback_mode` that is there has to be one of the known names.
pub open spec fn delta_of(value: JsonView) -> Result<MusingStateDeltaView, MusingErrorView> {
    if !(value is Object) {
        Err(MusingErrorView::ExpectedObject)
    } else if value.field("playback_state"@) matches Some(x) && PlaybackState::of_json(x) is None {
        Err(MusingErrorView::UnknownPlaybackState)
    } else if value.field("playback_mode"@) matches Some(x) && PlaybackMode::of_json(x) is None {
        Err(MusingErrorView::UnknownPlaybackMode)
    } else {
        Ok(
            MusingStateDeltaView {
                playback_state: match value.field("playback_state"@) {
                    Some(x) => PlaybackState::of_json(x),
                    None => None,
                },
                playback_mode: match value.field("playback_mode"@) {
                    Some(x) => PlaybackMode::of_json(x),
                    None => None,
                },
                volume: number_of(value.field("volume"@)),
                speed: number_of(value.field("speed"@)),
                gapless: match value.field("gapless"@) {
                    Some(JsonView::Bool(b)) => Some(b),
                    _ => None,
                },
                queue: match value.field("queue"@) {
                    Some(JsonView::List(items)) => songs_of(items),
                    _ => None,
                },
                current: match value.field("current"@) {
                    Some(x) => Some(x.as_u64()),
                    None => None,
                },
                cover_art: match value.field("cover_art"@) {
                    Some(x) => Some(x.as_text()),
                    None => None,
                },
                timer: match value.field("timer"@) {
                    Some(x) => Some(timer_of(x)),
                    None => None,
                },
            },
        )
    }
}

/// The songs of a list of JSON values, or `None` where one of them is no song.
fn songs_from(items: &Vec<Json>) -> (r: Option<Vec<MusingSong>>)
    ensures
        match r {
            Some(songs) => songs_of(items_view(items@)) == Some(songs_view(songs@)),
            None => songs_of(items_view(items@)).is_none(),
        },
{
    proof {
        lemma_items_view(items@);
    }
    let ghost values = items_view(items@);
    let mut songs: Vec<MusingSong> = Vec::new();
    let mut i: usize = 0;
    while i < items.len()
        invariant
            i <= items@.len(),
            values == items_view(items@),
            values.len() == items@.len(),
            forall|k: int| 0 <= k < items@.len() ==> #[trigger] values[k] == items@[k]@,
            songs@.len() == i,
            forall|k: int|
                0 <= k < i ==> song_of(#[trigger] values[k]) == Ok::<MusingSongView, MusingErrorView>(
                    songs@[k]@,
                ),
        decreases items@.len() - i,
    {
        match MusingSong::try_from(&items[i]) {
            Ok(song) => {
                songs.push(song);
            },
            Err(_) => {
                assert(!(song_of(values[i as int]) is Ok));
                return None;
            },
        }
        i += 1;
    }
    assert(songs_of(values)->Some_0 =~= songs_view(songs@));
    Some(songs)
}

/// The whole number in a JSON value that is there or not.
fn number_from(value: Option<&Json>) -> (r: Option<u64>)
    ensures
        r == number_of(
            match value {
                Some(x) => Some(x@),
                None => None,
            },
        ),
{
    match value {
        Some(x) => x.as_u64(),
        None => None,
    }
}

/// The timer in a JSON value.
fn timer_from(value: &Json) -> (r: (u64, u64))
    ensures
        r == timer_of(value@),
{
    let elapsed = match number_from(value.get("elapsed")) {
        Some(n) => n,
        None => 0,
    };
    let duration = match number_from(value.get("duration")) {
        Some(n) => n,
        None => 0,
    };
    (elapsed, duration)
}

impl MusingStateDelta {
    /// Reads a delta from the reply to a state request.
    pub fn try_from(value: Json) -> (r: Result<MusingStateDelta, MusingError>)
        ensures
            match r {
                Ok(delta) => delta_of(value@) == Ok::<MusingStateDeltaView, MusingErrorView>(delta@),
                Err(e) => delta_of(value@) == Err::<MusingStateDeltaView, MusingErrorView>(e@),
            },
    {
        if !value.is_object() {
            return Err(MusingError::ExpectedObject);
        }
        let playback_state = match value.get("playback_state") {
            Some(x) => match PlaybackState::from_json(x) {
                Some(state) => Some(state),
                None => {
                    return Err(MusingError::UnknownPlaybackState);
                },
            },
            None => None,
        };
        let playback_mode = match value.get("playback_mode") {
            Some(x) => match PlaybackMode::from_json(x) {
                Some(mode) => Some(mode),
                None => {
                    return Err(MusingError::UnknownPlaybackMode);
                },
            },
            None => None,
        };
        let volume = number_from(value.get("volume"));
        let speed = number_from(value.get("speed"));
        let gapless = match value.get("gapless") {
            Some(x) => x.as_bool(),
            None => None,
        };
        let queue = match value.get("queue") {
            Some(x) => match x.as_array() {
                Some(items) => songs_from(items),
                None => None,
            },
            None => None,
        };
        let current = match value.get("current") {
            Some(x) => Some(x.as_u64()),
            None => None,
        };
        let cover_art = match value.get("cover_art") {
            Some(x) => Some(
                match x.as_str() {
                    Some(s) => Some(s.to_string()),
                    None => None,
                },
            ),
            None => None,
        };
        let timer = match value.get("timer") {
            Some(x) => Some(timer_from(x)),
            None => None,
        };
        Ok(
            MusingStateDelta {
                playback_state,
                playback_mode,
                volume,
                speed,
                gapless,
                queue,
                current,
                cover_art,
                timer,
            },
        )
    }
}

/// A delta changes the fields that it reports, and no other: each field of
/// the state after it is the reported value where the delta has one, and
/// the value before otherwise. For `current` and `cover_art` a reported "none"
/// is a value like any other.
pub proof fn law_merge_is_field_local(state: MusingStateView, delta: MusingStateDeltaView)
    ensures
        state.merge(delta).playback_state == (match delta.playback_state {
            Some(x) => x,
            None => state.playback_state,
        }),
        state.merge(delta).playback_mode == (match delta.playback_mode {
            Some(x) => x,
            None => state.playback_mode,
        }),
        state.merge(delta).volume == (match delta.volume {
            Some(x) => x,
            None => state.volume,
        }),
        state.merge(delta).speed == (match delta.speed {
            Some(x) => x,
            None => state.speed,
        }),
        state.merge(delta).gapless == (match delta.gapless {
            Some(x) => x,
            None => state.gapless,
        }),
        state.merge(delta).queue == (match delta.queue {
            Some(x) => x,
            None => state.queue,
        }),
        state.merge(delta).current == (match delta.current {
            Some(x) => x,
            None => state.current,
        }),
        state.merge(delta).cover_art == (match delta.cover_art {
            Some(x) => x,
            None => state.cover_art,
        }),
        state.merge(delta).timer == (match delta.timer {
            Some(x) => Some(x),
            None => state.timer,
        }),
        delta == MusingStateDeltaView::empty() ==> state.merge(delta) == state,
{
}

/// A delta that reports only the volume changes only the volume.
pub proof fn law_volume_alone(state: MusingStateView, volume: u64)
    ensures
        state.merge(MusingStateDeltaView { volume: Some(volume), ..MusingStateDeltaView::empty() }) == (
        MusingStateView { volume, ..state }),
{
}

/// What a reply says of the current song: nothing where it has no member
/// `current`, that there is none where the member is `null`, and the song
/// where the member is its number.
pub proof fn law_current_of_reply(reply: JsonView)
    requires
        delta_of(reply) is Ok,
    ensures
        reply.field("current"@) is None ==> delta_of(reply)->Ok_0.current is None,
        reply.field("current"@) == Some(JsonView::Null) ==> delta_of(reply)->Ok_0.current == Some(
            None::<u64>,
        ),
        forall|n: u64|
            reply.field("current"@) == Some(JsonView::Unsigned(n)) ==> delta_of(reply)->Ok_0.current
                == Some(Some(n)),
{
}

} // verus!
