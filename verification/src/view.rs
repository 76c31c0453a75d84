use vstd::prelude::*;
use vstd::string::*;
use crate::app::App;
use crate::model::common::TagMap;
use crate::model::connection::UNKNOWN;
use crate::model::library::LibraryChildState;
use crate::model::musing::{MusingState, PlaybackState};
use crate::model::queue::{ordered_rows, shown_order, QueueState};
use crate::model::search::real_index;
use crate::text::{decimal, digit, texts, to_decimal, to_two_digits, two_digits};

verus! {

/// A duration as it is shown: minutes and seconds, with the hours in front
/// where there are any, each in at least two digits and with colons between.
pub open spec fn time_text(secs: nat) -> Seq<char> {
    let h = secs / 3600;
    let m = (secs % 3600) / 60;
    let s = secs % 60;
    if h == 0 {
        two_digits(m) + seq![':'] + two_digits(s)
    } else {
        two_digits(h) + seq![':'] + two_digits(m) + seq![':'] + two_digits(s)
    }
}

pub fn format_time(secs: u64) -> (r: String)
    ensures
        r@ == time_text(secs as nat),
{
    let h = secs / 3600;
    let m = (secs - h * 3600) / 60;
    let s = secs - h * 3600 - m * 60;
    proof {
        reveal_strlit(":");
        assert(":"@ =~= seq![':']);
    }
    if h == 0 {
        to_two_digits(m).concat(":").concat(to_two_digits(s).as_str())
    } else {
        to_two_digits(h).concat(":").concat(to_two_digits(m).as_str()).concat(":").concat(
            to_two_digits(s).as_str(),
        )
    }
}

/// The value of a decimal digit, or `None` for any other character.
pub open spec fn digit_value(c: char) -> Option<nat> {
    if '0' <= c && c <= '9' {
        Some((c as nat - '0' as nat) as nat)
    } else {
        None
    }
}

/// The number that the first `n` characters of a text of digits say, or
/// `None` where one of them is no digit or the number is above `u64::MAX`.
pub open spec fn digits_value(text: Seq<char>, n: nat) -> Option<nat>
    decreases n,
{
    if n == 0 {
        Some(0)
    } else {
        match (digits_value(text, (n - 1) as nat), digit_value(text[n - 1])) {
            (Some(before), Some(d)) => if before * 10 + d <= u64::MAX {
                Some(before * 10 + d)
            } else {
                None
            },
            _ => None,
        }
    }
}

/// The number that a text of digits says, or `None` where the text is
/// empty, holds anything but digits, or says a number above `u64::MAX`.
pub open spec fn number_of_digits(text: Seq<char>) -> Option<u64> {
    if text.len() == 0 {
        None
    } else {
        match digits_value(text, text.len()) {
            Some(n) => Some(n as u64),
            None => None,
        }
    }
}

/// The seconds that a tag value says: a number written in digits, with or
/// without a plus sign in front, or 0 for anything else.
pub open spec fn seconds_of(text: Seq<char>) -> u64 {
    let digits = if text.len() > 0 && text[0] == '+' {
        text.skip(1)
    } else {
        text
    };
    match number_of_digits(digits) {
        Some(n) => n,
        None => 0,
    }
}

/// Once the digits fail, they fail with more of them.
pub proof fn lemma_digits_fail(text: Seq<char>, n: nat, m: nat)
    requires
        n <= m,
        digits_value(text, n).is_none(),
    ensures
        digits_value(text, m).is_none(),
    decreases m,
{
    if n < m {
        lemma_digits_fail(text, n, (m - 1) as nat);
    }
}

/// The number that a text of digits says.
pub fn parse_digits(text: &str) -> (r: Option<u64>)
    ensures
        r == number_of_digits(text@),
{
    let n = text.unicode_len();
    if n == 0 {
        return None;
    }
    let mut value: u64 = 0;
    let mut i: usize = 0;
    while i < n
        invariant
            i <= n,
            n == text@.len(),
            digits_value(text@, i as nat) == Some(value as nat),
        decreases n - i,
    {
        let c = text.get_char(i);
        if c < '0' || c > '9' {
            proof {
                assert(digits_value(text@, (i + 1) as nat).is_none());
                lemma_digits_fail(text@, (i + 1) as nat, n as nat);
            }
            return None;
        }
        let d = (c as u8 - 48) as u64;
        if value > (u64::MAX - d) / 10 {
            proof {
                assert(digits_value(text@, (i + 1) as nat).is_none());
                lemma_digits_fail(text@, (i + 1) as nat, n as nat);
            }
            return None;
        }
        value = value * 10 + d;
        i += 1;
    }
    Some(value)
}

/// The seconds that a tag value says.
pub fn parse_seconds(text: &str) -> (r: u64)
    ensures
        r == seconds_of(text@),
{
    let n = text.unicode_len();
    let digits = if n > 0 && text.get_char(0) == '+' {
        text.substring_char(1, n)
    } else {
        text
    };
    assert(n > 0 ==> text@.subrange(1, n as int) =~= text@.skip(1));
    match parse_digits(digits) {
        Some(seconds) => seconds,
        None => 0,
    }
}

/// The texts of the two lines at the top of the screen.
#[derive(Debug, PartialEq, Eq)]
pub struct Header {
    pub mode: String,
    pub title: String,
    pub volume: String,
    pub state: String,
    pub artist_album: String,
    pub speed: String,
}

/// The mathematical value of a [`Header`].
pub struct HeaderView {
    pub mode: Seq<char>,
    pub title: Seq<char>,
    pub volume: Seq<char>,
    pub state: Seq<char>,
    pub artist_album: Seq<char>,
    pub speed: Seq<char>,
}

impl View for Header {
    type V = HeaderView;

    open spec fn view(&self) -> HeaderView {
        HeaderView {
            mode: self.mode@,
            title: self.title@,
            volume: self.volume@,
            state: self.state@,
            artist_album: self.artist_album@,
            speed: self.speed@,
        }
    }
}

/// The tags of the current song, where the queue has them.
pub open spec fn current_tags(app: App) -> Option<Map<Seq<char>, Seq<char>>> {
    match app.musing_state.current {
        Some(cur) => if cur < app.queue_state.metadata@.len() {
            Some(app.queue_state.metadata@[cur as int]@)
        } else {
            None
        },
        None => None,
    }
}

/// The path of the current song, where the queue has it.
pub open spec fn current_path(app: App) -> Option<Seq<char>> {
    match app.musing_state.current {
        Some(cur) => if cur < app.musing_state.queue@.len() {
            Some(app.musing_state.queue@[cur as int].path@)
        } else {
            None
        },
        None => None,
    }
}

/// The value of a tag of the current song, or what stands for it.
pub open spec fn current_tag(app: App, tag: Seq<char>, or: Seq<char>) -> Seq<char> {
    match current_tags(app) {
        Some(tags) => if tags.contains_key(tag) {
            tags[tag]
        } else {
            or
        },
        None => or,
    }
}

/// The texts at the top of the screen: the mode and the state in brackets,
/// volume and speed, and, unless the playback is stopped, the current song
/// by title (or by path, where it has no title), artist and album.
pub open spec fn header_of(app: App) -> HeaderView {
    let stopped = app.musing_state.playback_state == PlaybackState::Stopped;
    HeaderView {
        mode: "["@ + app.musing_state.playback_mode.letters() + (if app.musing_state.gapless {
            " G]"@
        } else {
            " g]"@
        }),
        title: if stopped {
            Seq::empty()
        } else {
            current_tag(
                app,
                "tracktitle"@,
                match current_path(app) {
                    Some(path) => path,
                    None => "<unknown title>"@,
                },
            )
        },
        volume: "Volume: "@ + decimal(app.musing_state.volume as nat),
        state: "["@ + app.musing_state.playback_state.name() + "]"@,
        artist_album: if stopped {
            Seq::empty()
        } else {
            current_tag(app, "artist"@, "<unknown artist>"@) + " - "@ + current_tag(
                app,
                "album"@,
                "<unknown album>"@,
            )
        },
        speed: "Speed: "@ + decimal(app.musing_state.speed as nat),
    }
}

/// The tags of the current song.
fn current_metadata(app: &App) -> (r: Option<&TagMap>)
    ensures
        match r {
            Some(tags) => current_tags(*app) == Some(tags@),
            None => current_tags(*app).is_none(),
        },
{
    match app.musing_state.current {
        Some(cur) => {
            if cur < app.queue_state.metadata.len() as u64 {
                Some(&app.queue_state.metadata[cur as usize])
            } else {
                None
            }
        },
        None => None,
    }
}

/// The value of a tag of the current song, or what stands for it.
fn current_value(app: &App, tag: &str, or: &str) -> (r: String)
    ensures
        r@ == current_tag(*app, tag@, or@),
{
    match current_metadata(app) {
        Some(tags) => match tags.get(tag) {
            Some(value) => value.clone(),
            None => or.to_string(),
        },
        None => or.to_string(),
    }
}

/// The texts at the top of the screen.
pub fn header(app: &App) -> (r: Header)
    ensures
        r@ == header_of(*app),
{
    let stopped = app.musing_state.is_stopped();
    let mode = "[".to_string().concat(app.musing_state.playback_mode.to_string().as_str()).concat(
        if app.musing_state.gapless {
            " G]"
        } else {
            " g]"
        },
    );
    let title = if stopped {
        String::new()
    } else {
        let cur = app.musing_state.current;
        let fallback = match cur {
            Some(cur) => {
                if cur < app.musing_state.queue.len() as u64 {
                    app.musing_state.queue[cur as usize].path.clone()
                } else {
                    "<unknown title>".to_string()
                }
            },
            None => "<unknown title>".to_string(),
        };
        current_value(app, "tracktitle", fallback.as_str())
    };
    let artist_album = if stopped {
        String::new()
    } else {
        current_value(app, "artist", "<unknown artist>").concat(" - ").concat(
            current_value(app, "album", "<unknown album>").as_str(),
        )
    };
    Header {
        mode,
        title,
        volume: "Volume: ".to_string().concat(to_decimal(app.musing_state.volume).as_str()),
        state: "[".to_string().concat(app.musing_state.playback_state.to_string().as_str()).concat("]"),
        artist_album,
        speed: "Speed: ".to_string().concat(to_decimal(app.musing_state.speed).as_str()),
    }
}

/// One row of the queue as it is shown.
#[derive(Debug, PartialEq, Eq)]
pub struct QueueRow {
    /// The values of the displayed tags, and the duration.
    pub cells: Vec<String>,
    /// The length of the song in seconds.
    pub seconds: u64,
    /// Whether this is the song that plays.
    pub current: bool,
}

/// The values that a song has for the displayed tags, each [`UNKNOWN`] where
/// the song has none, and its duration at the end.
pub open spec fn row_cells(tags: Map<Seq<char>, Seq<char>>, displayed: Seq<Seq<char>>) -> Seq<Seq<char>> {
    Seq::new(
        displayed.len(),
        |j: int|
            if tags.contains_key(displayed[j]) {
                tags[displayed[j]]
            } else {
                UNKNOWN@
            },
    ).push(time_text(row_seconds(tags) as nat))
}

/// The length of a song in seconds: what its tag `duration` says.
pub open spec fn row_seconds(tags: Map<Seq<char>, Seq<char>>) -> u64 {
    if tags.contains_key("duration"@) {
        seconds_of(tags["duration"@])
    } else {
        0
    }
}

/// Whether the song at place `k` of the view is the one that plays.
pub open spec fn row_is_current(queue: QueueState, state: MusingState, k: int) -> bool {
    state.current matches Some(cur) && cur == (if queue.search.tx.is_some() {
        real_index(queue.search.result@, k as usize)
    } else {
        k as usize
    })
}

/// The rows of the queue in the order in which they are shown.
pub fn queue_rows(queue: &QueueState, state: &MusingState) -> (r: Vec<QueueRow>)
    ensures
        r@.len() == shown_order(queue.search.state, queue.search.result@, queue.metadata@.len()).len(),
        forall|k: int|
            0 <= k < r@.len() ==> {
                let tags = queue.metadata@[shown_order(
                    queue.search.state,
                    queue.search.result@,
                    queue.metadata@.len(),
                )[k] as int]@;
                &&& texts((#[trigger] r@[k]).cells@) == row_cells(tags, texts(queue.displayed_tags@))
                &&& r@[k].seconds == row_seconds(tags)
                &&& r@[k].current == row_is_current(*queue, *state, k)
            },
{
    let rows = ordered_rows(&queue.search, queue.metadata.len());
    let mut out: Vec<QueueRow> = Vec::new();
    let mut k: usize = 0;
    while k < rows.len()
        invariant
            k <= rows@.len(),
            out@.len() == k,
            forall|j: int| 0 <= j < rows@.len() ==> (#[trigger] rows@[j]) < queue.metadata@.len(),
            forall|j: int|
                0 <= j < k ==> {
                    let tags = queue.metadata@[rows@[j] as int]@;
                    &&& texts((#[trigger] out@[j]).cells@) == row_cells(tags, texts(queue.displayed_tags@))
                    &&& out@[j].seconds == row_seconds(tags)
                    &&& out@[j].current == row_is_current(*queue, *state, j)
                },
        decreases rows@.len() - k,
    {
        let tags = &queue.metadata[rows[k]];
        let mut cells: Vec<String> = Vec::new();
        let mut j: usize = 0;
        while j < queue.displayed_tags.len()
            invariant
                j <= queue.displayed_tags@.len(),
                cells@.len() == j,
                forall|i: int|
                    0 <= i < j ==> (#[trigger] cells@[i])@ == (if tags@.contains_key(
                        queue.displayed_tags@[i]@,
                    ) {
                        tags@[queue.displayed_tags@[i]@]
                    } else {
                        UNKNOWN@
                    }),
            decreases queue.displayed_tags@.len() - j,
        {
            let cell = match tags.get(queue.displayed_tags[j].as_str()) {
                Some(value) => value.clone(),
                None => UNKNOWN.to_string(),
            };
            cells.push(cell);
            j += 1;
        }
        let seconds = match tags.get("duration") {
            Some(value) => parse_seconds(value.as_str()),
            None => 0,
        };
        cells.push(format_time(seconds));
        assert(texts(cells@) =~= row_cells(tags@, texts(queue.displayed_tags@)));
        let current = match state.current {
            Some(cur) => cur == queue.search.real_i(k) as u64,
            None => false,
        };
        out.push(QueueRow { cells, seconds, current });
        k += 1;
    }
    out
}

/// The sum of the lengths of the first `n` rows.
pub open spec fn seconds_sum(rows: Seq<QueueRow>, n: nat) -> nat
    decreases n,
{
    if n == 0 {
        0
    } else {
        seconds_sum(rows, (n - 1) as nat) + rows[n - 1].seconds as nat
    }
}

/// The sum goes up with the number of rows.
pub proof fn lemma_seconds_sum_grows(rows: Seq<QueueRow>, n: nat, m: nat)
    requires
        n <= m,
    ensures
        seconds_sum(rows, n) <= seconds_sum(rows, m),
    decreases m,
{
    if n < m {
        lemma_seconds_sum_grows(rows, n, (m - 1) as nat);
    }
}

/// The length of all rows together, or `None` where it is above `u64::MAX`.
pub fn total_duration(rows: &Vec<QueueRow>) -> (r: Option<u64>)
    ensures
        match r {
            Some(total) => total == seconds_sum(rows@, rows@.len()),
            None => seconds_sum(rows@, rows@.len()) > u64::MAX,
        },
{
    let mut total: u64 = 0;
    let mut i: usize = 0;
    while i < rows.len()
        invariant
            i <= rows@.len(),
            total == seconds_sum(rows@, i as nat),
        decreases rows@.len() - i,
    {
        if rows[i].seconds > u64::MAX - total {
            proof {
                lemma_seconds_sum_grows(rows@, (i + 1) as nat, rows@.len());
            }
            return None;
        }
        total = total + rows[i].seconds;
        i += 1;
    }
    Some(total)
}

/// The titles of the songs of a group in the order in which they are shown:
/// the title of a song, or its path where it has none.
pub fn song_titles(child: &LibraryChildState) -> (r: Vec<String>)
    ensures
        r@.len() == shown_order(child.search.state, child.search.result@, child.songs()).len(),
        forall|k: int|
            0 <= k < r@.len() ==> {
                let row = shown_order(child.search.state, child.search.result@, child.songs())[k] as int;
                (#[trigger] r@[k])@ == (if child.group.metadata@[row]@.contains_key("tracktitle"@) {
                    child.group.metadata@[row]@["tracktitle"@]
                } else {
                    child.group.paths@[row]@
                })
            },
{
    let group = child.ordered_group();
    let mut titles: Vec<String> = Vec::new();
    let mut k: usize = 0;
    while k < group.len()
        invariant
            k <= group@.len(),
            titles@.len() == k,
            forall|j: int|
                0 <= j < k ==> (#[trigger] titles@[j])@ == (if (*group@[j].0)@.contains_key(
                    "tracktitle"@,
                ) {
                    (*group@[j].0)@["tracktitle"@]
                } else {
                    (*group@[j].1)@
                }),
        decreases group@.len() - k,
    {
        let title = match group[k].0.get("tracktitle") {
            Some(title) => title.clone(),
            None => group[k].1.clone(),
        };
        titles.push(title);
        k += 1;
    }
    titles
}

} // verus!
