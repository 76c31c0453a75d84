use vstd::prelude::*;
use vstd::string::*;
use crate::model::keybind::{control_modifier, no_modifiers, shift_modifier, Binding, KeyCode, KeyEvent, KeyModifiers};
use crate::text::same_text;

verus! {

/// Whether a character separates the words of a key sequence: the white
/// space of Unicode.
pub open spec fn is_space(c: char) -> bool {
    ||| '\u{9}' <= c && c <= '\u{d}'
    ||| c == ' '
    ||| c == '\u{85}'
    ||| c == '\u{a0}'
    ||| c == '\u{1680}'
    ||| '\u{2000}' <= c && c <= '\u{200a}'
    ||| c == '\u{2028}'
    ||| c == '\u{2029}'
    ||| c == '\u{202f}'
    ||| c == '\u{205f}'
    ||| c == '\u{3000}'
}

fn space(c: char) -> (r: bool)
    ensures
        r == is_space(c),
{
    (c >= '\u{9}' && c <= '\u{d}') || c == ' ' || c == '\u{85}' || c == '\u{a0}' || c == '\u{1680}' || (c
        >= '\u{2000}' && c <= '\u{200a}') || c == '\u{2028}' || c == '\u{2029}' || c == '\u{202f}' || c
        == '\u{205f}' || c == '\u{3000}'
}

/// The word that was begun, as a list of at most one word.
pub open spec fn begun(word: Seq<char>) -> Seq<Seq<char>> {
    if word.len() > 0 {
        seq![word]
    } else {
        Seq::empty()
    }
}

/// The words of a text after a word that was begun: white space ends a
/// word, and any other character goes on with it.
pub open spec fn split_words(s: Seq<char>, word: Seq<char>) -> Seq<Seq<char>>
    decreases s.len(),
{
    if s.len() == 0 {
        begun(word)
    } else if is_space(s[0]) {
        begun(word) + split_words(s.skip(1), Seq::empty())
    } else {
        split_words(s.skip(1), word.push(s[0]))
    }
}

/// The words of a text: what stands between white space.
pub open spec fn words(s: Seq<char>) -> Seq<Seq<char>> {
    split_words(s, Seq::empty())
}

/// The characters of each string slice of a list.
pub open spec fn strs_view(list: Seq<&str>) -> Seq<Seq<char>> {
    list.map_values(|s: &str| s@)
}

/// The words of a text.
pub fn split_whitespace(s: &str) -> (r: Vec<&str>)
    ensures
        strs_view(r@) == words(s@),
{
    let n = s.unicode_len();
    let mut out: Vec<&str> = Vec::new();
    let mut start: usize = 0;
    let mut i: usize = 0;
    assert(s@.skip(0) =~= s@);
    assert(s@.subrange(0, 0) =~= Seq::empty());
    assert(strs_view(out@) =~= Seq::empty());
    while i < n
        invariant
            n == s@.len(),
            start <= i <= n,
            words(s@) == strs_view(out@) + split_words(s@.skip(i as int), s@.subrange(start as int, i as int)),
        decreases n - i,
    {
        let c = s.get_char(i);
        let ghost rest = s@.skip(i as int);
        let ghost word = s@.subrange(start as int, i as int);
        assert(rest[0] == c);
        assert(rest.skip(1) =~= s@.skip(i as int + 1));
        if space(c) {
            if start < i {
                let w = s.substring_char(start, i);
                assert(strs_view(out@.push(w)) =~= strs_view(out@) + begun(word));
                out.push(w);
            } else {
                assert(strs_view(out@) + begun(word) =~= strs_view(out@));
            }
            start = i + 1;
            assert(s@.subrange(start as int, i as int + 1) =~= Seq::empty());
        } else {
            assert(word.push(c) =~= s@.subrange(start as int, i as int + 1));
        }
        i += 1;
    }
    let ghost word = s@.subrange(start as int, i as int);
    assert(s@.skip(i as int) =~= Seq::empty());
    if start < i {
        let w = s.substring_char(start, i);
        assert(strs_view(out@.push(w)) =~= strs_view(out@) + begun(word));
        out.push(w);
    } else {
        assert(strs_view(out@) + begun(word) =~= strs_view(out@));
    }
    out
}

/// The key that a word names: a single ASCII character stands for itself,
/// and the other keys have names in angle brackets.
pub open spec fn code_of(word: Seq<char>) -> Option<KeyCode> {
    if word.len() == 1 && word[0] <= '\u{7f}' {
        Some(KeyCode::Char(word[0]))
    } else if word == "<SPACE>"@ {
        Some(KeyCode::Char(' '))
    } else if word == "<UP_ARROW>"@ {
        Some(KeyCode::Up)
    } else if word == "<DOWN_ARROW>"@ {
        Some(KeyCode::Down)
    } else if word == "<LEFT_ARROW>"@ {
        Some(KeyCode::Left)
    } else if word == "<RIGHT_ARROW>"@ {
        Some(KeyCode::Right)
    } else if word == "<ENTER>"@ {
        Some(KeyCode::Enter)
    } else if word == "<ESCAPE>"@ {
        Some(KeyCode::Esc)
    } else if word == "<TAB>"@ {
        Some(KeyCode::Tab)
    } else if word == "<BACKSPACE>"@ {
        Some(KeyCode::Backspace)
    } else if word == "<DELETE>"@ {
        Some(KeyCode::Delete)
    } else if word == "<HOME>"@ {
        Some(KeyCode::Home)
    } else if word == "<END>"@ {
        Some(KeyCode::End)
    } else if word == "<PAGE_UP>"@ {
        Some(KeyCode::PageUp)
    } else if word == "<PAGE_DOWN>"@ {
        Some(KeyCode::PageDown)
    } else {
        None
    }
}

/// Whether a word starts with a prefix.
pub open spec fn starts_with(word: Seq<char>, prefix: Seq<char>) -> bool {
    word.len() >= prefix.len() && word.take(prefix.len() as int) == prefix
}

/// The key event that a word names: a key, with `C-` before it for control,
/// `S-` for shift, or `C-S-` for both. A word in which a key follows `C-` is
/// read with control, whatever else it could be read as, and then likewise
/// for `S-` and `C-S-`.
pub open spec fn key_event_of(word: Seq<char>) -> Option<KeyEvent> {
    if starts_with(word, "C-"@) && code_of(word.skip(2)) is Some {
        Some(KeyEvent::pressed(code_of(word.skip(2))->Some_0, KeyModifiers::control()))
    } else if starts_with(word, "S-"@) && code_of(word.skip(2)) is Some {
        Some(KeyEvent::pressed(code_of(word.skip(2))->Some_0, KeyModifiers::shift()))
    } else if starts_with(word, "C-S-"@) && code_of(word.skip(4)) is Some {
        Some(KeyEvent::pressed(code_of(word.skip(4))->Some_0, KeyModifiers::control_shift()))
    } else {
        match code_of(word) {
            Some(code) => Some(KeyEvent::pressed(code, KeyModifiers::none())),
            None => None,
        }
    }
}

/// The key events that a list of words names, if each word names one.
pub open spec fn key_events_of_words(list: Seq<Seq<char>>) -> Option<Seq<KeyEvent>> {
    if forall|i: int| 0 <= i < list.len() ==> (#[trigger] key_event_of(list[i])) is Some {
        Some(Seq::new(list.len(), |i: int| key_event_of(list[i])->Some_0))
    } else {
        None
    }
}

/// The key sequence that a text names: one key event for each of its words.
pub open spec fn key_events_of(text: Seq<char>) -> Option<Seq<KeyEvent>> {
    key_events_of_words(words(text))
}

/// The key that a word names.
pub fn try_into_code(s: &str) -> (r: Option<KeyCode>)
    ensures
        r == code_of(s@),
{
    let n = s.unicode_len();
    if n == 1 && s.get_char(0) <= '\u{7f}' {
        Some(KeyCode::Char(s.get_char(0)))
    } else if same_text(s, "<SPACE>") {
        Some(KeyCode::Char(' '))
    } else if same_text(s, "<UP_ARROW>") {
        Some(KeyCode::Up)
    } else if same_text(s, "<DOWN_ARROW>") {
        Some(KeyCode::Down)
    } else if same_text(s, "<LEFT_ARROW>") {
        Some(KeyCode::Left)
    } else if same_text(s, "<RIGHT_ARROW>") {
        Some(KeyCode::Right)
    } else if same_text(s, "<ENTER>") {
        Some(KeyCode::Enter)
    } else if same_text(s, "<ESCAPE>") {
        Some(KeyCode::Esc)
    } else if same_text(s, "<TAB>") {
        Some(KeyCode::Tab)
    } else if same_text(s, "<BACKSPACE>") {
        Some(KeyCode::Backspace)
    } else if same_text(s, "<DELETE>") {
        Some(KeyCode::Delete)
    } else if same_text(s, "<HOME>") {
        Some(KeyCode::Home)
    } else if same_text(s, "<END>") {
        Some(KeyCode::End)
    } else if same_text(s, "<PAGE_UP>") {
        Some(KeyCode::PageUp)
    } else if same_text(s, "<PAGE_DOWN>") {
        Some(KeyCode::PageDown)
    } else {
        None
    }
}

/// What follows a prefix in a word that starts with it.
fn strip_prefix<'a>(s: &'a str, prefix: &str) -> (r: Option<&'a str>)
    ensures
        match r {
            Some(rest) => starts_with(s@, prefix@) && rest@ == s@.skip(prefix@.len() as int),
            None => !starts_with(s@, prefix@),
        },
{
    let n = s.unicode_len();
    let m = prefix.unicode_len();
    if n >= m && same_text(s.substring_char(0, m), prefix) {
        let rest = s.substring_char(m, n);
        assert(s@.subrange(0, m as int) =~= s@.take(m as int));
        assert(s@.subrange(m as int, n as int) =~= s@.skip(m as int));
        Some(rest)
    } else {
        if n >= m {
            assert(s@.subrange(0, m as int) =~= s@.take(m as int));
        }
        None
    }
}

/// The key of what follows a prefix of a word.
fn code_after<'a>(s: &'a str, prefix: &str) -> (r: Option<KeyCode>)
    ensures
        r == (if starts_with(s@, prefix@) {
            code_of(s@.skip(prefix@.len() as int))
        } else {
            None
        }),
{
    match strip_prefix(s, prefix) {
        Some(rest) => try_into_code(rest),
        None => None,
    }
}

/// The key event that a word names.
pub fn try_into_key_event(part: &str) -> (r: Option<KeyEvent>)
    ensures
        r == key_event_of(part@),
{
    proof {
        reveal_strlit("C-");
        reveal_strlit("S-");
        reveal_strlit("C-S-");
    }
    if let Some(code) = code_after(part, "C-") {
        Some(KeyEvent::new(code, control_modifier()))
    } else if let Some(code) = code_after(part, "S-") {
        Some(KeyEvent::new(code, shift_modifier()))
    } else if let Some(code) = code_after(part, "C-S-") {
        let both = KeyModifiers {
            shift: true,
            control: true,
            alt: false,
            logo: false,
            hyper: false,
            meta: false,
        };
        Some(KeyEvent::new(code, both))
    } else if let Some(code) = try_into_code(part) {
        Some(KeyEvent::new(code, no_modifiers()))
    } else {
        None
    }
}

/// The key sequence that a text names.
pub fn try_into_key_events(s: &str) -> (r: Option<Vec<KeyEvent>>)
    ensures
        match r {
            Some(events) => key_events_of(s@) == Some(events@),
            None => key_events_of(s@).is_none(),
        },
{
    let parts = split_whitespace(s);
    let ghost list = words(s@);
    let mut res: Vec<KeyEvent> = Vec::new();
    let mut i: usize = 0;
    while i < parts.len()
        invariant
            i <= parts@.len(),
            list == strs_view(parts@),
            list == words(s@),
            res@.len() == i,
            forall|k: int| 0 <= k < i ==> key_event_of(#[trigger] list[k]) == Some(res@[k]),
        decreases parts@.len() - i,
    {
        match try_into_key_event(parts[i]) {
            Some(ev) => res.push(ev),
            None => {
                assert(!(key_event_of(list[i as int]) is Some));
                return None;
            },
        }
        i += 1;
    }
    assert(key_events_of_words(list)->Some_0 =~= res@);
    Some(res)
}

impl Binding {
    /// The binding that a name of the configuration stands for.
    pub open spec fn named(name: Seq<char>) -> Option<Binding> {
        if name == "quit"@ {
            Some(Binding::Quit)
        } else if name == "next"@ {
            Some(Binding::Next)
        } else if name == "previous"@ {
            Some(Binding::Previous)
        } else if name == "pause"@ {
            Some(Binding::Pause)
        } else if name == "resume"@ {
            Some(Binding::Resume)
        } else if name == "toggle"@ {
            Some(Binding::Toggle)
        } else if name == "stop"@ {
            Some(Binding::Stop)
        } else if name == "play"@ {
            Some(Binding::Play)
        } else if name == "seek_forwards"@ {
            Some(Binding::SeekForwards)
        } else if name == "seek_backwards"@ {
            Some(Binding::SeekBackwards)
        } else if name == "speed_up"@ {
            Some(Binding::SpeedUp)
        } else if name == "speed_down"@ {
            Some(Binding::SpeedDown)
        } else if name == "volume_up"@ {
            Some(Binding::VolumeUp)
        } else if name == "volume_down"@ {
            Some(Binding::VolumeDown)
        } else if name == "scroll_up"@ {
            Some(Binding::ScrollUp)
        } else if name == "scroll_down"@ {
            Some(Binding::ScrollDown)
        } else if name == "scroll_many_up"@ {
            Some(Binding::ScrollManyUp)
        } else if name == "scroll_many_down"@ {
            Some(Binding::ScrollManyDown)
        } else if name == "scroll_top"@ {
            Some(Binding::ScrollTop)
        } else if name == "scroll_bottom"@ {
            Some(Binding::ScrollBottom)
        } else if name == "focus_left"@ {
            Some(Binding::FocusLeft)
        } else if name == "focus_right"@ {
            Some(Binding::FocusRight)
        } else if name == "start_search"@ {
            Some(Binding::StartSearch)
        } else if name == "end_search"@ {
            Some(Binding::EndSearch)
        } else if name == "add_to_queue"@ {
            Some(Binding::AddToQueue)
        } else if name == "remove_from_queue"@ {
            Some(Binding::RemoveFromQueue)
        } else if name == "clear_queue"@ {
            Some(Binding::ClearQueue)
        } else if name == "mode_gapless"@ {
            Some(Binding::ModeGapless)
        } else if name == "mode_random"@ {
            Some(Binding::ModeRandom)
        } else if name == "mode_sequential"@ {
            Some(Binding::ModeSequential)
        } else if name == "mode_single"@ {
            Some(Binding::ModeSingle)
        } else if name == "musing_update"@ {
            Some(Binding::MusingUpdate)
        } else if name == "screen_cover"@ {
            Some(Binding::ScreenCover)
        } else if name == "screen_queue"@ {
            Some(Binding::ScreenQueue)
        } else if name == "screen_library"@ {
            Some(Binding::ScreenLibrary)
        } else if name == "other"@ {
            Some(Binding::Other)
        } else {
            None
        }
    }

    pub fn from_str(name: &str) -> (r: Option<Binding>)
        ensures
            r == Self::named(name@),
    {
        if same_text(name, "quit") {
            Some(Binding::Quit)
        } else if same_text(name, "next") {
            Some(Binding::Next)
        } else if same_text(name, "previous") {
            Some(Binding::Previous)
        } else if same_text(name, "pause") {
            Some(Binding::Pause)
        } else if same_text(name, "resume") {
            Some(Binding::Resume)
        } else if same_text(name, "toggle") {
            Some(Binding::Toggle)
        } else if same_text(name, "stop") {
            Some(Binding::Stop)
        } else if same_text(name, "play") {
            Some(Binding::Play)
        } else if same_text(name, "seek_forwards") {
            Some(Binding::SeekForwards)
        } else if same_text(name, "seek_backwards") {
            Some(Binding::SeekBackwards)
        } else if same_text(name, "speed_up") {
            Some(Binding::SpeedUp)
        } else if same_text(name, "speed_down") {
            Some(Binding::SpeedDown)
        } else if same_text(name, "volume_up") {
            Some(Binding::VolumeUp)
        } else if same_text(name, "volume_down") {
            Some(Binding::VolumeDown)
        } else if same_text(name, "scroll_up") {
            Some(Binding::ScrollUp)
        } else if same_text(name, "scroll_down") {
            Some(Binding::ScrollDown)
        } else if same_text(name, "scroll_many_up") {
            Some(Binding::ScrollManyUp)
        } else if same_text(name, "scroll_many_down") {
            Some(Binding::ScrollManyDown)
        } else if same_text(name, "scroll_top") {
            Some(Binding::ScrollTop)
        } else if same_text(name, "scroll_bottom") {
            Some(Binding::ScrollBottom)
        } else if same_text(name, "focus_left") {
            Some(Binding::FocusLeft)
        } else if same_text(name, "focus_right") {
            Some(Binding::FocusRight)
        } else if same_text(name, "start_search") {
            Some(Binding::StartSearch)
        } else if same_text(name, "end_search") {
            Some(Binding::EndSearch)
        } else if same_text(name, "add_to_queue") {
            Some(Binding::AddToQueue)
        } else if same_text(name, "remove_from_queue") {
            Some(Binding::RemoveFromQueue)
        } else if same_text(name, "clear_queue") {
            Some(Binding::ClearQueue)
        } else if same_text(name, "mode_gapless") {
            Some(Binding::ModeGapless)
        } else if same_text(name, "mode_random") {
            Some(Binding::ModeRandom)
        } else if same_text(name, "mode_sequential") {
            Some(Binding::ModeSequential)
        } else if same_text(name, "mode_single") {
            Some(Binding::ModeSingle)
        } else if same_text(name, "musing_update") {
            Some(Binding::MusingUpdate)
        } else if same_text(name, "screen_cover") {
            Some(Binding::ScreenCover)
        } else if same_text(name, "screen_queue") {
            Some(Binding::ScreenQueue)
        } else if same_text(name, "screen_library") {
            Some(Binding::ScreenLibrary)
        } else if same_text(name, "other") {
            Some(Binding::Other)
        } else {
            None
        }
    }
}

} // verus!
