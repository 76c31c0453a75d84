use vstd::prelude::*;
use vstd::slice::slice_subrange;

verus! {

/// What a key sequence asks for.
#[derive(Clone, Copy, Debug, PartialEq, Eq, Structural)]
pub enum Binding {
    Quit,
    Next,
    Previous,
    Pause,
    Resume,
    Toggle,
    Stop,
    Play,
    SeekForwards,
    SeekBackwards,
    SpeedUp,
    SpeedDown,
    VolumeUp,
    VolumeDown,
    ScrollUp,
    ScrollDown,
    ScrollManyUp,
    ScrollManyDown,
    ScrollTop,
    ScrollBottom,
    FocusLeft,
    FocusRight,
    StartSearch,
    EndSearch,
    AddToQueue,
    RemoveFromQueue,
    ClearQueue,
    ModeGapless,
    ModeRandom,
    ModeSequential,
    ModeSingle,
    MusingUpdate,
    ScreenCover,
    ScreenQueue,
    ScreenLibrary,
    // used to pass typed characters to search
    Other,
}

/// A key of the keyboard.
#[derive(Clone, Copy, Debug, PartialEq, Eq, Structural)]
pub enum KeyCode {
    Backspace,
    Enter,
    Left,
    Right,
    Up,
    Down,
    Home,
    End,
    PageUp,
    PageDown,
    Tab,
    BackTab,
    Delete,
    Insert,
    F(u8),
    Char(char),
    Null,
    Esc,
    CapsLock,
    ScrollLock,
    NumLock,
    PrintScreen,
    Pause,
    Menu,
    KeypadBegin,
    /// A media key, by its number.
    Media(u8),
    /// A modifier key pressed on its own, by its number.
    Modifier(u8),
}

/// The modifier keys held down with a key.
#[derive(Clone, Copy, Debug, PartialEq, Eq, Structural)]
pub struct KeyModifiers {
    pub shift: bool,
    pub control: bool,
    pub alt: bool,
    pub logo: bool,
    pub hyper: bool,
    pub meta: bool,
}

/// Whether a key went down, stays down or came up.
#[derive(Clone, Copy, Debug, PartialEq, Eq, Structural)]
pub enum KeyEventKind {
    Press,
    Repeat,
    Release,
}

/// One key event as the terminal reports it.
#[derive(Clone, Copy, Debug, PartialEq, Eq, Structural)]
pub struct KeyEvent {
    pub code: KeyCode,
    pub modifiers: KeyModifiers,
    pub kind: KeyEventKind,
    /// What the terminal says of the keyboard's state, as it gives it.
    pub state: u8,
}

/// The upper-case form of a letter of the ASCII alphabet; any other
/// character is its own.
pub open spec fn upper(c: char) -> char {
    if 'a' <= c && c <= 'z' {
        ((c as u32) - 32) as char
    } else {
        c
    }
}

fn to_upper(c: char) -> (r: char)
    ensures
        r == upper(c),
{
    if c >= 'a' && c <= 'z' {
        ((c as u8) - 32) as char
    } else {
        c
    }
}

impl KeyModifiers {
    /// No modifier key.
    pub open spec fn none() -> KeyModifiers {
        KeyModifiers { shift: false, control: false, alt: false, logo: false, hyper: false, meta: false }
    }

    /// The control key alone.
    pub open spec fn control() -> KeyModifiers {
        KeyModifiers { control: true, ..Self::none() }
    }

    /// The shift key alone.
    pub open spec fn shift() -> KeyModifiers {
        KeyModifiers { shift: true, ..Self::none() }
    }

    /// The control and shift keys.
    pub open spec fn control_shift() -> KeyModifiers {
        KeyModifiers { control: true, shift: true, ..Self::none() }
    }
}

/// The modifiers of a key pressed alone.
pub fn no_modifiers() -> (r: KeyModifiers)
    ensures
        r == KeyModifiers::none(),
{
    KeyModifiers { shift: false, control: false, alt: false, logo: false, hyper: false, meta: false }
}

/// The modifiers of a key pressed with control.
pub fn control_modifier() -> (r: KeyModifiers)
    ensures
        r == KeyModifiers::control(),
{
    KeyModifiers { shift: false, control: true, alt: false, logo: false, hyper: false, meta: false }
}

/// The modifiers of a key pressed with shift.
pub fn shift_modifier() -> (r: KeyModifiers)
    ensures
        r == KeyModifiers::shift(),
{
    KeyModifiers { shift: true, control: false, alt: false, logo: false, hyper: false, meta: false }
}

impl KeyEvent {
    /// The press of a key with these modifiers.
    pub open spec fn pressed(code: KeyCode, modifiers: KeyModifiers) -> KeyEvent {
        KeyEvent { code, modifiers, kind: KeyEventKind::Press, state: 0 }
    }

    /// The event by which key events are told apart: shift counts as held
    /// exactly where an upper-case letter is typed, so `A` and shift with
    /// `a` are one key.
    pub open spec fn normal(self) -> KeyEvent {
        match self.code {
            KeyCode::Char(c) => if 'A' <= c && c <= 'Z' {
                KeyEvent { modifiers: KeyModifiers { shift: true, ..self.modifiers }, ..self }
            } else if self.modifiers.shift {
                KeyEvent { code: KeyCode::Char(upper(c)), ..self }
            } else {
                self
            },
            _ => self,
        }
    }

    /// Whether two events are the same key.
    pub open spec fn same_key(self, other: KeyEvent) -> bool {
        self.normal() == other.normal()
    }

    pub fn new(code: KeyCode, modifiers: KeyModifiers) -> (r: KeyEvent)
        ensures
            r == KeyEvent::pressed(code, modifiers),
    {
        KeyEvent { code, modifiers, kind: KeyEventKind::Press, state: 0 }
    }

    pub fn normalize_case(self) -> (r: KeyEvent)
        ensures
            r == self.normal(),
    {
        match self.code {
            KeyCode::Char(c) => {
                if c >= 'A' && c <= 'Z' {
                    let modifiers = KeyModifiers {
                        shift: true,
                        control: self.modifiers.control,
                        alt: self.modifiers.alt,
                        logo: self.modifiers.logo,
                        hyper: self.modifiers.hyper,
                        meta: self.modifiers.meta,
                    };
                    KeyEvent { code: self.code, modifiers, kind: self.kind, state: self.state }
                } else if self.modifiers.shift {
                    KeyEvent {
                        code: KeyCode::Char(to_upper(c)),
                        modifiers: self.modifiers,
                        kind: self.kind,
                        state: self.state,
                    }
                } else {
                    self
                }
            },
            _ => self,
        }
    }

    /// Whether two events are the same key.
    pub fn is_same_key(&self, other: &KeyEvent) -> (r: bool)
        ensures
            r == self.same_key(*other),
    {
        self.normalize_case() == other.normalize_case()
    }
}

/// What a key sequence comes to.
#[derive(Clone, Copy, Debug, PartialEq, Eq, Structural)]
pub enum Resolution {
    /// The sequence is bound: this is asked for.
    Terminal(Binding),
    /// The sequence is the start of longer bound sequences.
    Transition,
}

#[derive(Debug, PartialEq, Eq)]
pub enum KeybindNode {
    Transition(Keybind),  // this key combinations leads to some binding(s)
    Terminal(Binding),  // this key combination corresponds to a binding
}

/// The key bindings: for each first key of a bound sequence, what follows.
#[derive(Debug, PartialEq, Eq)]
pub struct Keybind(Vec<(KeyEvent, KeybindNode)>);

/// The position of the first entry for a key.
pub open spec fn entry_of(entries: Seq<(KeyEvent, KeybindNode)>, key: KeyEvent) -> Option<int>
    decreases entries.len(),
{
    if entries.len() == 0 {
        None
    } else if entries[0].0.same_key(key) {
        Some(0)
    } else {
        match entry_of(entries.skip(1), key) {
            Some(i) => Some(i + 1),
            None => None,
        }
    }
}

/// What `entry_of` finds: the first entry for the key.
pub proof fn lemma_entry_of(entries: Seq<(KeyEvent, KeybindNode)>, key: KeyEvent)
    ensures
        match entry_of(entries, key) {
            Some(i) => 0 <= i < entries.len() && entries[i].0.same_key(key) && forall|j: int|
                0 <= j < i ==> !(#[trigger] entries[j]).0.same_key(key),
            None => forall|j: int| 0 <= j < entries.len() ==> !(#[trigger] entries[j]).0.same_key(key),
        },
    decreases entries.len(),
{
    if entries.len() > 0 && !entries[0].0.same_key(key) {
        lemma_entry_of(entries.skip(1), key);
        let rest = entries.skip(1);
        match entry_of(rest, key) {
            Some(i) => {
                assert forall|j: int| 0 <= j < i + 1 implies !(#[trigger] entries[j]).0.same_key(key) by {
                    if j > 0 {
                        assert(entries[j] == rest[j - 1]);
                    }
                }
            },
            None => {
                assert forall|j: int| 0 <= j < entries.len() implies !(#[trigger] entries[j]).0.same_key(
                    key,
                ) by {
                    if j > 0 {
                        assert(entries[j] == rest[j - 1]);
                    }
                }
            },
        }
    }
}

/// The first entry with a given property is the one that `entry_of` finds.
pub proof fn lemma_entry_of_is(entries: Seq<(KeyEvent, KeybindNode)>, key: KeyEvent, i: int)
    requires
        0 <= i < entries.len(),
        entries[i].0.same_key(key),
        forall|j: int| 0 <= j < i ==> !(#[trigger] entries[j]).0.same_key(key),
    ensures
        entry_of(entries, key) == Some(i),
{
    lemma_entry_of(entries, key);
}

/// Where no entry is for the key, `entry_of` finds none.
pub proof fn lemma_entry_of_none(entries: Seq<(KeyEvent, KeybindNode)>, key: KeyEvent)
    requires
        forall|j: int| 0 <= j < entries.len() ==> !(#[trigger] entries[j]).0.same_key(key),
    ensures
        entry_of(entries, key).is_none(),
{
    lemma_entry_of(entries, key);
}

/// `entry_of` finds the same entry for two events that are the same key.
pub proof fn lemma_entry_of_same_key(entries: Seq<(KeyEvent, KeybindNode)>, a: KeyEvent, b: KeyEvent)
    requires
        a.same_key(b),
    ensures
        entry_of(entries, a) == entry_of(entries, b),
    decreases entries.len(),
{
    if entries.len() > 0 {
        lemma_entry_of_same_key(entries.skip(1), a, b);
    }
}

/// Replacing the node of the entry for `key` changes what stands under that
/// key, and nothing else.
pub proof fn lemma_entry_replaced(
    entries: Seq<(KeyEvent, KeybindNode)>,
    key: KeyEvent,
    i: int,
    node: KeybindNode,
    other: KeyEvent,
)
    requires
        entry_of(entries, key) == Some(i),
    ensures
        0 <= i < entries.len(),
        entry_of(entries.update(i, (entries[i].0, node)), other) == entry_of(entries, other),
        other.same_key(key) <==> entry_of(entries, other) == Some(i),
    decreases entries.len(),
{
    lemma_entry_of(entries, key);
    lemma_entry_of(entries, other);
    let changed = entries.update(i, (entries[i].0, node));
    lemma_entry_of(changed, other);
    match entry_of(entries, other) {
        Some(j) => {
            assert(changed[j].0 == entries[j].0);
            lemma_entry_of_is(changed, other, j);
        },
        None => {
            lemma_entry_of_none(changed, other);
        },
    }
}

/// An entry added at the end for a key that had none changes what stands
/// under that key, and nothing else.
pub proof fn lemma_entry_pushed(
    entries: Seq<(KeyEvent, KeybindNode)>,
    key: KeyEvent,
    node: KeybindNode,
    other: KeyEvent,
)
    requires
        entry_of(entries, key).is_none(),
    ensures
        other.same_key(key) ==> entry_of(entries.push((key, node)), other) == Some(entries.len() as int),
        !other.same_key(key) ==> entry_of(entries.push((key, node)), other) == entry_of(entries, other),
{
    lemma_entry_of(entries, key);
    lemma_entry_of(entries, other);
    let changed = entries.push((key, node));
    lemma_entry_of(changed, other);
    if other.same_key(key) {
        lemma_entry_of_is(changed, other, entries.len() as int);
    } else {
        match entry_of(entries, other) {
            Some(j) => {
                assert(changed[j] == entries[j]);
                lemma_entry_of_is(changed, other, j);
            },
            None => {
                lemma_entry_of_none(changed, other);
            },
        }
    }
}

/// The number of keys at the start of two sequences that are the same.
pub open spec fn common(a: Seq<KeyEvent>, b: Seq<KeyEvent>) -> nat
    decreases a.len(),
{
    if a.len() == 0 || b.len() == 0 || !a[0].same_key(b[0]) {
        0
    } else {
        1 + common(a.skip(1), b.skip(1))
    }
}

/// The common start is no longer than either sequence.
pub proof fn lemma_common_bound(a: Seq<KeyEvent>, b: Seq<KeyEvent>)
    ensures
        common(a, b) <= a.len(),
        common(a, b) <= b.len(),
    decreases a.len(),
{
    if !(a.len() == 0 || b.len() == 0 || !a[0].same_key(b[0])) {
        lemma_common_bound(a.skip(1), b.skip(1));
    }
}

/// What a sequence `s` comes to once `events` is bound to `binding`, given
/// what `s` came to before and what the start that `s` shares with `events`
/// came to before.
///
/// A sequence that starts with `events` comes to the new binding; a proper
/// start of `events` comes to a transition. A sequence that leaves `events`
/// after a shared start keeps what it had if that start was a transition, and
/// loses it otherwise: a binding on the way to `events` gives way to a fresh
/// transition. A sequence with another first key keeps what it had.
pub open spec fn resolve_after(
    before: Option<Resolution>,
    shared_before: Option<Resolution>,
    events: Seq<KeyEvent>,
    binding: Binding,
    s: Seq<KeyEvent>,
) -> Option<Resolution> {
    let c = common(events, s);
    if c == 0 {
        before
    } else if c == events.len() {
        Some(Resolution::Terminal(binding))
    } else if c == s.len() {
        Some(Resolution::Transition)
    } else if shared_before == Some(Resolution::Transition) {
        before
    } else {
        None
    }
}

impl Keybind {
    /// The entries of the first level.
    pub closed spec fn entries(self) -> Seq<(KeyEvent, KeybindNode)> {
        self.0@
    }

    /// What stands under a key at the first level.
    pub open spec fn child(self, key: KeyEvent) -> Option<KeybindNode> {
        match entry_of(self.entries(), key) {
            Some(i) => Some(self.entries()[i].1),
            None => None,
        }
    }

    /// What a key sequence comes to: the binding of the sequence or of one
    /// of its starts, a transition where longer sequences start with it, or
    /// nothing.
    pub open spec fn resolve(self, events: Seq<KeyEvent>) -> Option<Resolution>
        decreases events.len(),
    {
        if events.len() == 0 {
            None
        } else {
            match self.child(events[0]) {
                None => None,
                Some(KeybindNode::Terminal(binding)) => Some(Resolution::Terminal(binding)),
                Some(KeybindNode::Transition(next)) => if events.len() == 1 {
                    Some(Resolution::Transition)
                } else {
                    next.resolve(events.skip(1))
                },
            }
        }
    }

    /// Bindings for no key at all.
    pub fn new() -> (r: Keybind)
        ensures
            forall|events: Seq<KeyEvent>| (#[trigger] r.resolve(events)).is_none(),
    {
        let r = Keybind(Vec::new());
        assert forall|events: Seq<KeyEvent>| (#[trigger] r.resolve(events)).is_none() by {
            lemma_entry_of(r.entries(), events[0]);
        }
        r
    }

    /// The position of the entry for a key.
    fn position(&self, key: &KeyEvent) -> (r: Option<usize>)
        ensures
            match r {
                Some(i) => entry_of(self.entries(), *key) == Some(i as int) && i < self.entries().len(),
                None => entry_of(self.entries(), *key).is_none(),
            },
    {
        let mut i: usize = 0;
        while i < self.0.len()
            invariant
                i <= self.0@.len(),
                forall|j: int| 0 <= j < i ==> !(#[trigger] self.0@[j]).0.same_key(*key),
            decreases self.0@.len() - i,
        {
            if self.0[i].0.is_same_key(key) {
                proof {
                    lemma_entry_of_is(self.entries(), *key, i as int);
                }
                return Some(i);
            }
            i += 1;
        }
        proof {
            lemma_entry_of_none(self.entries(), *key);
        }
        None
    }

    /// What a sequence comes to once `events` is bound to `binding`.
    pub open spec fn resolve_with(self, events: Seq<KeyEvent>, binding: Binding, s: Seq<KeyEvent>) -> Option<
        Resolution,
    > {
        resolve_after(
            self.resolve(s),
            self.resolve(s.take(common(events, s) as int)),
            events,
            binding,
            s,
        )
    }

    /// Binds a key sequence. The empty sequence binds nothing.
    ///
    /// A binding of a start of `events` is lost, and so are the bindings of
    /// the sequences that start with `events`.
    pub fn add_keybind(&mut self, events: &[KeyEvent], binding: Binding)
        ensures
            forall|s: Seq<KeyEvent>| #[trigger]
                final(self).resolve(s) == old(self).resolve_with(events@, binding, s),
        decreases events@.len(),
    {
        if events.len() == 0 {
            return ;
        }
        let key = events[0];
        let ghost before = *self;
        match self.position(&key) {
            Some(i) => {
                let (stored, node) = self.0.remove(i);
                let node = if events.len() == 1 {
                    KeybindNode::Terminal(binding)
                } else {
                    let mut next = match node {
                        KeybindNode::Transition(next) => next,
                        KeybindNode::Terminal(_) => Keybind::new(),
                    };
                    let rest = slice_subrange(events, 1, events.len());
                    assert(rest@ =~= events@.skip(1));
                    next.add_keybind(rest, binding);
                    KeybindNode::Transition(next)
                };
                self.0.insert(i, (stored, node));
                proof {
                    assert(self.entries() =~= before.entries().update(i as int, (stored, node)));
                    assert forall|other: KeyEvent| #[trigger]
                        self.child(other) == (if other.same_key(key) {
                            Some(node)
                        } else {
                            before.child(other)
                        }) by {
                        lemma_entry_replaced(before.entries(), key, i as int, node, other);
                        assert(stored == before.entries()[i as int].0);
                        assert(entry_of(self.entries(), other) == entry_of(before.entries(), other));
                        lemma_entry_of(before.entries(), other);
                    }
                    lemma_bound(before, *self, events@, binding, node);
                }
            },
            None => {
                let node = if events.len() == 1 {
                    KeybindNode::Terminal(binding)
                } else {
                    let mut next = Keybind::new();
                    let rest = slice_subrange(events, 1, events.len());
                    assert(rest@ =~= events@.skip(1));
                    next.add_keybind(rest, binding);
                    KeybindNode::Transition(next)
                };
                self.0.push((key, node));
                proof {
                    assert forall|other: KeyEvent| #[trigger]
                        self.child(other) == (if other.same_key(key) {
                            Some(node)
                        } else {
                            before.child(other)
                        }) by {
                        lemma_entry_pushed(before.entries(), key, node, other);
                        assert(self.entries() == before.entries().push((key, node)));
                        if other.same_key(key) {
                            assert(entry_of(self.entries(), other) == Some(before.entries().len() as int));
                            assert(self.entries()[before.entries().len() as int].1 == node);
                        } else {
                            assert(entry_of(self.entries(), other) == entry_of(before.entries(), other));
                            lemma_entry_of(before.entries(), other);
                        }
                    }
                    lemma_bound(before, *self, events@, binding, node);
                }
            },
        }
    }

    // Some(Terminal) => this sequence matched something
    // Some(Transition) => this sequence will potentially match something
    // None => this sequence doesn't match and won't match anything in the future
    pub fn translate(&self, events: &[KeyEvent]) -> (r: Option<&KeybindNode>)
        ensures
            match r {
                Some(KeybindNode::Terminal(binding)) => self.resolve(events@) == Some(
                    Resolution::Terminal(*binding),
                ),
                Some(KeybindNode::Transition(_)) => self.resolve(events@) == Some(Resolution::Transition),
                None => self.resolve(events@).is_none(),
            },
        decreases events@.len(),
    {
        if events.len() == 0 {
            return None;
        }
        match self.position(&events[0]) {
            None => None,
            Some(i) => {
                let node = &self.0[i].1;
                match node {
                    KeybindNode::Transition(next) => {
                        if events.len() == 1 {
                            Some(node)
                        } else {
                            let rest = slice_subrange(events, 1, events.len());
                            assert(rest@ =~= events@.skip(1));
                            next.translate(rest)
                        }
                    },
                    KeybindNode::Terminal(_) => Some(node),
                }
            },
        }
    }
}

/// The step of binding a sequence: the node under its first key is replaced,
/// by the binding itself for a sequence of one key, and otherwise by a
/// transition to what was there (or to nothing, where no transition was
/// there) with the rest of the sequence bound.
proof fn lemma_bound(
    before: Keybind,
    after: Keybind,
    events: Seq<KeyEvent>,
    binding: Binding,
    node: KeybindNode,
)
    requires
        events.len() > 0,
        forall|other: KeyEvent| #[trigger]
            after.child(other) == (if other.same_key(events[0]) {
                Some(node)
            } else {
                before.child(other)
            }),
        events.len() == 1 ==> node == KeybindNode::Terminal(binding),
        events.len() > 1 ==> node is Transition,
        events.len() > 1 ==> forall|t: Seq<KeyEvent>| #[trigger]
            node->Transition_0.resolve(t) == resolve_after(
                match before.child(events[0]) {
                    Some(KeybindNode::Transition(next)) => next.resolve(t),
                    _ => None,
                },
                match before.child(events[0]) {
                    Some(KeybindNode::Transition(next)) => next.resolve(
                        t.take(common(events.skip(1), t) as int),
                    ),
                    _ => None,
                },
                events.skip(1),
                binding,
                t,
            ),
    ensures
        forall|s: Seq<KeyEvent>| #[trigger] after.resolve(s) == before.resolve_with(events, binding, s),
{
    assert forall|s: Seq<KeyEvent>| #[trigger]
        after.resolve(s) == before.resolve_with(events, binding, s) by {
        let c = common(events, s);
        lemma_common_bound(events, s);
        if s.len() == 0 {
        } else if !events[0].same_key(s[0]) {
            assert(after.child(s[0]) == before.child(s[0]));
        } else {
            assert(after.child(s[0]) == Some(node));
            lemma_entry_of_same_key(before.entries(), s[0], events[0]);
            assert(before.child(s[0]) == before.child(events[0]));
            let rest = events.skip(1);
            let t = s.skip(1);
            let d = common(rest, t);
            lemma_common_bound(rest, t);
            assert(c == 1 + d);
            if events.len() == 1 {
                assert(d == 0);
            } else if s.len() == 1 {
                assert(d == 0);
                assert(after.resolve(s) == Some(Resolution::Transition));
            } else {
                let next = node->Transition_0;
                assert(after.resolve(s) == next.resolve(t));
                let shared = s.take(c as int);
                assert(shared.len() == c);
                assert(shared[0] == s[0]);
                assert(shared.skip(1) =~= t.take(d as int));
                match before.child(events[0]) {
                    Some(KeybindNode::Transition(old_next)) => {
                        assert(before.resolve(s) == old_next.resolve(t));
                        if c == 1 {
                            assert(before.resolve(shared) == Some(Resolution::Transition));
                        } else {
                            assert(before.resolve(shared) == old_next.resolve(t.take(d as int)));
                        }
                    },
                    Some(KeybindNode::Terminal(x)) => {
                        assert(before.resolve(shared) == Some(Resolution::Terminal(x)));
                    },
                    None => {
                        assert(before.resolve(shared).is_none());
                    },
                }
            }
        }
    }
}

/// What a sequence comes to when the first `n` entries of a table of
/// bindings were bound one after the other, starting from no binding.
pub open spec fn resolve_table(table: Seq<(Seq<KeyEvent>, Binding)>, n: nat, s: Seq<KeyEvent>) -> Option<
    Resolution,
>
    decreases n,
{
    if n == 0 {
        None
    } else {
        let events = table[n - 1].0;
        resolve_after(
            resolve_table(table, (n - 1) as nat, s),
            resolve_table(table, (n - 1) as nat, s.take(common(events, s) as int)),
            events,
            table[n - 1].1,
            s,
        )
    }
}

/// Entries whose first key is another than that of `s` do not change what
/// `s` comes to.
pub proof fn lemma_other_first_keys(
    table: Seq<(Seq<KeyEvent>, Binding)>,
    m: nat,
    n: nat,
    s: Seq<KeyEvent>,
)
    requires
        m <= n <= table.len(),
        s.len() > 0,
        forall|j: int|
            m <= j < n ==> (#[trigger] table[j]).0.len() > 0 && !table[j].0[0].same_key(s[0]),
    ensures
        resolve_table(table, n, s) == resolve_table(table, m, s),
    decreases n,
{
    if m < n {
        lemma_other_first_keys(table, m, (n - 1) as nat, s);
        assert(common(table[n - 1].0, s) == 0);
    }
}

/// A longer sequence takes the place of a shorter one that it starts with:
/// once `first second` is bound, `first` alone is a transition, whatever it
/// was bound to, `first second` comes to the new binding, and `first` with
/// any other key comes to nothing.
pub proof fn law_longer_sequence_shadows(
    keybind: Keybind,
    first: KeyEvent,
    second: KeyEvent,
    third: KeyEvent,
    old_binding: Binding,
    new_binding: Binding,
)
    requires
        keybind.resolve(seq![first]) == Some(Resolution::Terminal(old_binding)),
        !third.same_key(second),
    ensures
        keybind.resolve_with(seq![first, second], new_binding, seq![first]) == Some(
            Resolution::Transition,
        ),
        keybind.resolve_with(seq![first, second], new_binding, seq![first, second]) == Some(
            Resolution::Terminal(new_binding),
        ),
        keybind.resolve_with(seq![first, second], new_binding, seq![first, third]).is_none(),
{
    let events = seq![first, second];
    assert(events.skip(1) =~= seq![second]);
    assert(seq![first].skip(1) =~= Seq::<KeyEvent>::empty());
    assert(seq![first, third].skip(1) =~= seq![third]);
    assert(seq![second].skip(1) =~= Seq::<KeyEvent>::empty());
    assert(seq![third].skip(1) =~= Seq::<KeyEvent>::empty());
    assert(common(seq![second], Seq::<KeyEvent>::empty()) == 0);
    assert(common(events, seq![first]) == 1);
    assert(common(Seq::<KeyEvent>::empty(), Seq::<KeyEvent>::empty()) == 0);
    assert(common(seq![second], seq![second]) == 1);
    assert(common(events, events) == 2);
    assert(common(seq![second], seq![third]) == 0);
    assert(common(events, seq![first, third]) == 1);
    assert(seq![first, third].take(1) =~= seq![first]);
}

/// The press of a character key alone.
pub open spec fn key(c: char) -> KeyEvent {
    KeyEvent::pressed(KeyCode::Char(c), KeyModifiers::none())
}

/// The press of a character key with control.
pub open spec fn control_key(c: char) -> KeyEvent {
    KeyEvent::pressed(KeyCode::Char(c), KeyModifiers::control())
}

/// The press of a key without a character, alone.
pub open spec fn named_key(code: KeyCode) -> KeyEvent {
    KeyEvent::pressed(code, KeyModifiers::none())
}

/// The number of bindings that are there from the start.
pub open spec fn default_len() -> nat {
    39
}

/// The bindings that are there from the start, in the order in which they
/// are bound.
pub open spec fn default_entry(k: int) -> (Seq<KeyEvent>, Binding) {
    if k == 0 {
        (seq![key('q')], Binding::Quit)
    } else if k == 1 {
        (seq![key('N')], Binding::Next)
    } else if k == 2 {
        (seq![key('P')], Binding::Previous)
    } else if k == 3 {
        (seq![key('p')], Binding::Pause)
    } else if k == 4 {
        (seq![key('o')], Binding::Resume)
    } else if k == 5 {
        (seq![key(' ')], Binding::Toggle)
    } else if k == 6 {
        (seq![key('S')], Binding::Stop)
    } else if k == 7 {
        (seq![named_key(KeyCode::Enter)], Binding::Play)
    } else if k == 8 {
        (seq![key(']')], Binding::SeekForwards)
    } else if k == 9 {
        (seq![key('[')], Binding::SeekBackwards)
    } else if k == 10 {
        (seq![key('>')], Binding::SpeedUp)
    } else if k == 11 {
        (seq![key('<')], Binding::SpeedDown)
    } else if k == 12 {
        (seq![key('=')], Binding::VolumeUp)
    } else if k == 13 {
        (seq![key('-')], Binding::VolumeDown)
    } else if k == 14 {
        (seq![named_key(KeyCode::Up)], Binding::ScrollUp)
    } else if k == 15 {
        (seq![key('k')], Binding::ScrollUp)
    } else if k == 16 {
        (seq![named_key(KeyCode::Down)], Binding::ScrollDown)
    } else if k == 17 {
        (seq![key('j')], Binding::ScrollDown)
    } else if k == 18 {
        (seq![control_key('u')], Binding::ScrollManyUp)
    } else if k == 19 {
        (seq![control_key('d')], Binding::ScrollManyDown)
    } else if k == 20 {
        (seq![key('g'), key('g')], Binding::ScrollTop)
    } else if k == 21 {
        (seq![key('G')], Binding::ScrollBottom)
    } else if k == 22 {
        (seq![key('h')], Binding::FocusLeft)
    } else if k == 23 {
        (seq![named_key(KeyCode::Left)], Binding::FocusLeft)
    } else if k == 24 {
        (seq![key('l')], Binding::FocusRight)
    } else if k == 25 {
        (seq![named_key(KeyCode::Right)], Binding::FocusRight)
    } else if k == 26 {
        (seq![key('/')], Binding::StartSearch)
    } else if k == 27 {
        (seq![named_key(KeyCode::Esc)], Binding::EndSearch)
    } else if k == 28 {
        (seq![key('a')], Binding::AddToQueue)
    } else if k == 29 {
        (seq![key('d')], Binding::RemoveFromQueue)
    } else if k == 30 {
        (seq![named_key(KeyCode::Delete)], Binding::ClearQueue)
    } else if k == 31 {
        (seq![key('t')], Binding::ModeGapless)
    } else if k == 32 {
        (seq![key('r')], Binding::ModeRandom)
    } else if k == 33 {
        (seq![key('e')], Binding::ModeSingle)
    } else if k == 34 {
        (seq![key('w')], Binding::ModeSequential)
    } else if k == 35 {
        (seq![key('U')], Binding::MusingUpdate)
    } else if k == 36 {
        (seq![key('1')], Binding::ScreenCover)
    } else if k == 37 {
        (seq![key('2')], Binding::ScreenQueue)
    } else {
        (seq![key('3')], Binding::ScreenLibrary)
    }
}

/// The table of the bindings that are there from the start.
pub open spec fn default_table() -> Seq<(Seq<KeyEvent>, Binding)> {
    Seq::new(default_len(), |k: int| default_entry(k))
}

/// What a sequence comes to with the bindings that are there from the start.
pub open spec fn default_resolution(s: Seq<KeyEvent>) -> Option<Resolution> {
    resolve_table(default_table(), default_len(), s)
}

/// With the bindings that are there from the start, `g` alone waits for more,
/// `g g` scrolls to the top, `g` with another key is nothing, and `G`
/// scrolls to the bottom.
pub proof fn law_default_chords(other: KeyEvent)
    requires
        !other.same_key(key('g')),
    ensures
        default_resolution(seq![key('g')]) == Some(Resolution::Transition),
        default_resolution(seq![key('g'), key('g')]) == Some(
            Resolution::Terminal(Binding::ScrollTop),
        ),
        default_resolution(seq![key('g'), other]).is_none(),
        default_resolution(seq![key('G')]) == Some(Resolution::Terminal(Binding::ScrollBottom)),
{
    let t = default_table();
    let g = seq![key('g')];
    let gg = seq![key('g'), key('g')];
    let gx = seq![key('g'), other];
    let shift_g = seq![key('G')];
    assert(gg.skip(1) =~= g);
    assert(gx.skip(1) =~= seq![other]);
    assert(g.skip(1) =~= Seq::<KeyEvent>::empty());
    assert(seq![other].skip(1) =~= Seq::<KeyEvent>::empty());
    assert(common(g, Seq::<KeyEvent>::empty()) == 0);
    assert(common(Seq::<KeyEvent>::empty(), Seq::<KeyEvent>::empty()) == 0);
    assert(common(g, g) == 1);
    assert(common(gg, g) == 1);
    assert(common(gg, gg) == 2);
    assert(common(g, seq![other]) == 0);
    assert(common(gg, gx) == 1);
    assert(gx.take(1) =~= g);
    assert(t[20] == (gg, Binding::ScrollTop));
    // the bindings after `g g` start with other keys than `g`
    lemma_other_first_keys(t, 21, 39, g);
    lemma_other_first_keys(t, 21, 39, gg);
    lemma_other_first_keys(t, 21, 39, gx);
    // and so do the bindings before it
    lemma_other_first_keys(t, 0, 20, g);
    // `G` is bound once, and no other binding starts with it
    assert(t[21] == (shift_g, Binding::ScrollBottom));
    assert(shift_g.skip(1) =~= Seq::<KeyEvent>::empty());
    assert(common(shift_g, shift_g) == 1);
    lemma_other_first_keys(t, 22, 39, shift_g);
}

/// The press of a character key alone.
pub fn char_key(c: char) -> (r: KeyEvent)
    ensures
        r == key(c),
{
    KeyEvent::new(KeyCode::Char(c), no_modifiers())
}

/// The press of a character key with control.
pub fn control_char_key(c: char) -> (r: KeyEvent)
    ensures
        r == control_key(c),
{
    KeyEvent::new(KeyCode::Char(c), control_modifier())
}

/// The press of a key without a character, alone.
pub fn code_key(code: KeyCode) -> (r: KeyEvent)
    ensures
        r == named_key(code),
{
    KeyEvent::new(code, no_modifiers())
}

/// Binds the entry `k` of the table of the bindings that are there from the
/// start, after the entries before it.
fn bind_default(keybind: &mut Keybind, events: &[KeyEvent], binding: Binding, Ghost(k): Ghost<nat>)
    requires
        k < default_len(),
        default_entry(k as int).0 =~= events@,
        default_entry(k as int).1 == binding,
        forall|s: Seq<KeyEvent>| #[trigger] old(keybind).resolve(s) == resolve_table(default_table(), k, s),
    ensures
        forall|s: Seq<KeyEvent>| #[trigger]
            final(keybind).resolve(s) == resolve_table(default_table(), k + 1, s),
{
    keybind.add_keybind(events, binding);
    assert(default_table()[k as int] == (events@, binding));
}

impl Default for Keybind {
    fn default() -> (r: Keybind)
        ensures
            forall|s: Seq<KeyEvent>| #[trigger] r.resolve(s) == default_resolution(s),
    {
        let mut keybind = Keybind::new();
        bind_default(&mut keybind, [char_key('q')].as_slice(), Binding::Quit, Ghost(0));
        bind_default(&mut keybind, [char_key('N')].as_slice(), Binding::Next, Ghost(1));
        bind_default(&mut keybind, [char_key('P')].as_slice(), Binding::Previous, Ghost(2));
        bind_default(&mut keybind, [char_key('p')].as_slice(), Binding::Pause, Ghost(3));
        bind_default(&mut keybind, [char_key('o')].as_slice(), Binding::Resume, Ghost(4));
        bind_default(&mut keybind, [char_key(' ')].as_slice(), Binding::Toggle, Ghost(5));
        bind_default(&mut keybind, [char_key('S')].as_slice(), Binding::Stop, Ghost(6));
        bind_default(&mut keybind, [code_key(KeyCode::Enter)].as_slice(), Binding::Play, Ghost(7));
        bind_default(&mut keybind, [char_key(']')].as_slice(), Binding::SeekForwards, Ghost(8));
        bind_default(&mut keybind, [char_key('[')].as_slice(), Binding::SeekBackwards, Ghost(9));
        bind_default(&mut keybind, [char_key('>')].as_slice(), Binding::SpeedUp, Ghost(10));
        bind_default(&mut keybind, [char_key('<')].as_slice(), Binding::SpeedDown, Ghost(11));
        bind_default(&mut keybind, [char_key('=')].as_slice(), Binding::VolumeUp, Ghost(12));
        bind_default(&mut keybind, [char_key('-')].as_slice(), Binding::VolumeDown, Ghost(13));
        bind_default(&mut keybind, [code_key(KeyCode::Up)].as_slice(), Binding::ScrollUp, Ghost(14));
        bind_default(&mut keybind, [char_key('k')].as_slice(), Binding::ScrollUp, Ghost(15));
        bind_default(&mut keybind, [code_key(KeyCode::Down)].as_slice(), Binding::ScrollDown, Ghost(16));
        bind_default(&mut keybind, [char_key('j')].as_slice(), Binding::ScrollDown, Ghost(17));
        bind_default(&mut keybind, [control_char_key('u')].as_slice(), Binding::ScrollManyUp, Ghost(18));
        bind_default(&mut keybind, [control_char_key('d')].as_slice(), Binding::ScrollManyDown, Ghost(19));
        bind_default(&mut keybind, [char_key('g'), char_key('g')].as_slice(), Binding::ScrollTop, Ghost(20));
        bind_default(&mut keybind, [char_key('G')].as_slice(), Binding::ScrollBottom, Ghost(21));
        bind_default(&mut keybind, [char_key('h')].as_slice(), Binding::FocusLeft, Ghost(22));
        bind_default(&mut keybind, [code_key(KeyCode::Left)].as_slice(), Binding::FocusLeft, Ghost(23));
        bind_default(&mut keybind, [char_key('l')].as_slice(), Binding::FocusRight, Ghost(24));
        bind_default(&mut keybind, [code_key(KeyCode::Right)].as_slice(), Binding::FocusRight, Ghost(25));
        bind_default(&mut keybind, [char_key('/')].as_slice(), Binding::StartSearch, Ghost(26));
        bind_default(&mut keybind, [code_key(KeyCode::Esc)].as_slice(), Binding::EndSearch, Ghost(27));
        bind_default(&mut keybind, [char_key('a')].as_slice(), Binding::AddToQueue, Ghost(28));
        bind_default(&mut keybind, [char_key('d')].as_slice(), Binding::RemoveFromQueue, Ghost(29));
        bind_default(&mut keybind, [code_key(KeyCode::Delete)].as_slice(), Binding::ClearQueue, Ghost(30));
        bind_default(&mut keybind, [char_key('t')].as_slice(), Binding::ModeGapless, Ghost(31));
        bind_default(&mut keybind, [char_key('r')].as_slice(), Binding::ModeRandom, Ghost(32));
        bind_default(&mut keybind, [char_key('e')].as_slice(), Binding::ModeSingle, Ghost(33));
        bind_default(&mut keybind, [char_key('w')].as_slice(), Binding::ModeSequential, Ghost(34));
        bind_default(&mut keybind, [char_key('U')].as_slice(), Binding::MusingUpdate, Ghost(35));
        bind_default(&mut keybind, [char_key('1')].as_slice(), Binding::ScreenCover, Ghost(36));
        bind_default(&mut keybind, [char_key('2')].as_slice(), Binding::ScreenQueue, Ghost(37));
        bind_default(&mut keybind, [char_key('3')].as_slice(), Binding::ScreenLibrary, Ghost(38));
        keybind
    }
}

/// What a sequence comes to does not depend on the entries of a table that
/// were not bound yet.
pub proof fn lemma_table_prefix(
    table: Seq<(Seq<KeyEvent>, Binding)>,
    more: Seq<(Seq<KeyEvent>, Binding)>,
    n: nat,
    s: Seq<KeyEvent>,
)
    requires
        n <= table.len(),
    ensures
        resolve_table(table + more, n, s) == resolve_table(table, n, s),
    decreases n,
{
    if n > 0 {
        let events = table[n - 1].0;
        assert((table + more)[n - 1] == table[n - 1]);
        lemma_table_prefix(table, more, (n - 1) as nat, s);
        lemma_table_prefix(table, more, (n - 1) as nat, s.take(common(events, s) as int));
    }
}

impl Keybind {
    /// The bindings are those of a table, bound one after the other.
    pub open spec fn is_table(self, table: Seq<(Seq<KeyEvent>, Binding)>) -> bool {
        forall|s: Seq<KeyEvent>| #[trigger] self.resolve(s) == resolve_table(table, table.len(), s)
    }

    /// Binds a key sequence, as one more entry of the table of the bindings.
    pub(crate) fn bind(
        &mut self,
        events: &[KeyEvent],
        binding: Binding,
        Ghost(table): Ghost<Seq<(Seq<KeyEvent>, Binding)>>,
    )
        requires
            old(self).is_table(table),
        ensures
            final(self).is_table(table.push((events@, binding))),
    {
        self.add_keybind(events, binding);
        let ghost longer = table.push((events@, binding));
        assert forall|s: Seq<KeyEvent>| #[trigger]
            self.resolve(s) == resolve_table(longer, longer.len(), s) by {
            assert(longer =~= table + seq![(events@, binding)]);
            lemma_table_prefix(table, seq![(events@, binding)], table.len(), s);
            lemma_table_prefix(
                table,
                seq![(events@, binding)],
                table.len(),
                s.take(common(events@, s) as int),
            );
        }
    }
}

/// The bindings that are there from the start are those of their table.
pub proof fn lemma_default_is_table(keybind: Keybind)
    requires
        forall|s: Seq<KeyEvent>| #[trigger] keybind.resolve(s) == default_resolution(s),
    ensures
        keybind.is_table(default_table()),
{
}

} // verus!
