use vstd::prelude::*;
use crate::text::{copy_texts, same_text, texts};

verus! {

/// The tags of one song: a finite map from tag names to values, kept as a
/// list of pairs in which no name occurs twice.
#[derive(Debug, PartialEq, Eq)]
pub struct TagMap {
    entries: Vec<(String, String)>,
}

/// The map that a list of pairs denotes; a later pair overrides an earlier
/// one of the same name.
pub open spec fn pairs_map(pairs: Seq<(String, String)>) -> Map<Seq<char>, Seq<char>>
    decreases pairs.len(),
{
    if pairs.len() == 0 {
        Map::empty()
    } else {
        pairs_map(pairs.drop_last()).insert(pairs.last().0@, pairs.last().1@)
    }
}

/// No two pairs share a name.
pub open spec fn distinct_names(pairs: Seq<(String, String)>) -> bool {
    forall|i: int, j: int| 0 <= i < j < pairs.len() ==> pairs[i].0@ != pairs[j].0@
}

/// A name that no pair carries is not in the map.
pub proof fn lemma_pairs_map_absent(pairs: Seq<(String, String)>, key: Seq<char>)
    requires
        forall|i: int| 0 <= i < pairs.len() ==> pairs[i].0@ != key,
    ensures
        !pairs_map(pairs).contains_key(key),
    decreases pairs.len(),
{
    if pairs.len() > 0 {
        lemma_pairs_map_absent(pairs.drop_last(), key);
    }
}

/// With distinct names, each pair is an entry of the map.
pub proof fn lemma_pairs_map_present(pairs: Seq<(String, String)>, i: int)
    requires
        distinct_names(pairs),
        0 <= i < pairs.len(),
    ensures
        pairs_map(pairs).contains_key(pairs[i].0@),
        pairs_map(pairs)[pairs[i].0@] == pairs[i].1@,
    decreases pairs.len(),
{
    if i < pairs.len() - 1 {
        lemma_pairs_map_present(pairs.drop_last(), i);
    }
}

/// Replacing the value of one pair replaces the value of its name.
pub proof fn lemma_pairs_map_update(pairs: Seq<(String, String)>, i: int, pair: (String, String))
    requires
        distinct_names(pairs),
        0 <= i < pairs.len(),
        pair.0@ == pairs[i].0@,
    ensures
        pairs_map(pairs.update(i, pair)) == pairs_map(pairs).insert(pair.0@, pair.1@),
    decreases pairs.len(),
{
    let updated = pairs.update(i, pair);
    if i < pairs.len() - 1 {
        assert(updated.drop_last() =~= pairs.drop_last().update(i, pair));
        lemma_pairs_map_update(pairs.drop_last(), i, pair);
        assert(pairs_map(updated) =~= pairs_map(pairs).insert(pair.0@, pair.1@));
    } else {
        assert(updated.drop_last() =~= pairs.drop_last());
        assert(pairs_map(updated) =~= pairs_map(pairs).insert(pair.0@, pair.1@));
    }
}

/// The index of the pair called `key`, if there is one.
fn position(pairs: &Vec<(String, String)>, key: &str) -> (r: Option<usize>)
    ensures
        match r {
            Some(i) => i < pairs@.len() && pairs@[i as int].0@ == key@,
            None => forall|k: int| 0 <= k < pairs@.len() ==> pairs@[k].0@ != key@,
        },
{
    let mut i: usize = 0;
    while i < pairs.len()
        invariant
            i <= pairs@.len(),
            forall|k: int| 0 <= k < i ==> pairs@[k].0@ != key@,
        decreases pairs@.len() - i,
    {
        if same_text(pairs[i].0.as_str(), key) {
            return Some(i);
        }
        i += 1;
    }
    None
}

impl View for TagMap {
    type V = Map<Seq<char>, Seq<char>>;

    closed spec fn view(&self) -> Map<Seq<char>, Seq<char>> {
        pairs_map(self.entries@)
    }
}

impl TagMap {
    #[verifier::type_invariant]
    spec fn well_formed(self) -> bool {
        distinct_names(self.entries@)
    }

    /// A map without entries.
    pub fn new() -> (r: TagMap)
        ensures
            r@ == Map::<Seq<char>, Seq<char>>::empty(),
    {
        TagMap { entries: Vec::new() }
    }

    /// The number of entries.
    pub fn len(&self) -> (n: usize)
        ensures
            n == self@.len(),
    {
        proof {
            use_type_invariant(self);
            lemma_pairs_map_len(self.entries@);
        }
        self.entries.len()
    }

    /// The value of `key`, if the map has one.
    pub fn get(&self, key: &str) -> (r: Option<&String>)
        ensures
            match r {
                Some(v) => self@.contains_key(key@) && self@[key@] == v@,
                None => !self@.contains_key(key@),
            },
    {
        proof {
            use_type_invariant(self);
        }
        match position(&self.entries, key) {
            Some(i) => {
                proof {
                    lemma_pairs_map_present(self.entries@, i as int);
                }
                Some(&self.entries[i].1)
            },
            None => {
                proof {
                    lemma_pairs_map_absent(self.entries@, key@);
                }
                None
            },
        }
    }

    /// Sets the value of `key`, replacing the one it had.
    pub fn insert(&mut self, key: String, value: String)
        ensures
            final(self)@ == old(self)@.insert(key@, value@),
    {
        proof {
            use_type_invariant(&*self);
        }
        let mut entries: Vec<(String, String)> = Vec::new();
        core::mem::swap(&mut self.entries, &mut entries);
        match position(&entries, key.as_str()) {
            Some(i) => {
                proof {
                    lemma_pairs_map_update(entries@, i as int, (key, value));
                }
                entries.set(i, (key, value));
            },
            None => {
                proof {
                    assert(entries@.push((key, value)).drop_last() =~= entries@);
                }
                entries.push((key, value));
            },
        }
        self.entries = entries;
    }
}

/// The map of distinct pairs has as many entries as there are pairs.
pub proof fn lemma_pairs_map_len(pairs: Seq<(String, String)>)
    requires
        distinct_names(pairs),
    ensures
        pairs_map(pairs).dom().finite(),
        pairs_map(pairs).len() == pairs.len(),
    decreases pairs.len(),
{
    if pairs.len() > 0 {
        lemma_pairs_map_len(pairs.drop_last());
        lemma_pairs_map_absent(pairs.drop_last(), pairs.last().0@);
    }
}

/// The tag maps of a list, each as a mathematical map.
pub open spec fn tag_maps(rows: Seq<TagMap>) -> Seq<Map<Seq<char>, Seq<char>>> {
    rows.map_values(|row: TagMap| row@)
}

/// The characters of each value of a row, where it is there.
pub open spec fn row_view(row: Seq<Option<String>>) -> Seq<Option<Seq<char>>> {
    row.map_values(
        |value: Option<String>|
            match value {
                Some(v) => Some(v@),
                None => None,
            },
    )
}

/// The rows of a table of values, each by its characters.
pub open spec fn rows_view(rows: Seq<Vec<Option<String>>>) -> Seq<Seq<Option<Seq<char>>>> {
    rows.map_values(|row: Vec<Option<String>>| row_view(row@))
}

/// The map that pairs the first `n` names with the first `n` values, leaving
/// out the names whose value is missing.
pub open spec fn paired_upto(keys: Seq<Seq<char>>, values: Seq<Option<Seq<char>>>, n: nat) -> Map<
    Seq<char>,
    Seq<char>,
>
    decreases n,
{
    if n == 0 {
        Map::empty()
    } else {
        let rest = paired_upto(keys, values, (n - 1) as nat);
        match values[n - 1] {
            Some(v) => rest.insert(keys[n - 1], v),
            None => rest,
        }
    }
}

/// The map that pairs each name with the value at the same position, as far
/// as both lists go.
pub open spec fn paired(keys: Seq<Seq<char>>, values: Seq<Option<Seq<char>>>) -> Map<
    Seq<char>,
    Seq<char>,
> {
    paired_upto(
        keys,
        values,
        if keys.len() <= values.len() {
            keys.len()
        } else {
            values.len()
        },
    )
}

/// One paired map for each row of values.
pub open spec fn paired_rows(keys: Seq<Seq<char>>, rows: Seq<Seq<Option<Seq<char>>>>) -> Seq<
    Map<Seq<char>, Seq<char>>,
> {
    rows.map_values(|row: Seq<Option<Seq<char>>>| paired(keys, row))
}

/// Which row of a table is selected, if any.
#[derive(Clone, Copy, Debug, PartialEq, Eq, Structural)]
pub struct TableState {
    pub selected: Option<usize>,
}

impl Default for TableState {
    fn default() -> (r: TableState)
        ensures
            r.selected.is_none(),
    {
        TableState { selected: None }
    }
}

/// The selection after a table of `rows` rows was shown: none in an empty
/// table, and otherwise no row after the last.
pub open spec fn shown(selected: Option<usize>, rows: nat) -> Option<usize> {
    match selected {
        Some(r) => if rows == 0 {
            None
        } else if r >= rows {
            Some((rows - 1) as usize)
        } else {
            Some(r)
        },
        None => None,
    }
}

impl TableState {
    pub fn selected(&self) -> (r: Option<usize>)
        ensures
            r == self.selected,
    {
        self.selected
    }

    pub fn select(&mut self, index: Option<usize>)
        ensures
            final(self).selected == index,
    {
        self.selected = index;
    }

    pub fn select_first(&mut self)
        ensures
            final(self).selected == Some(0usize),
    {
        self.selected = Some(0);
    }

    /// Moves the selection down by `amount` rows, as far as numbers go; with
    /// no selection, from the first row.
    pub fn scroll_down_by(&mut self, amount: u16)
        ensures
            final(self).selected == Some(
                if old(self).selected.unwrap_or(0) + amount > usize::MAX {
                    usize::MAX
                } else {
                    (old(self).selected.unwrap_or(0) + amount) as usize
                },
            ),
    {
        let selected = self.selected.unwrap_or(0);
        self.selected = Some(selected.saturating_add(amount as usize));
    }

    /// Moves the selection up by `amount` rows, at most to the first row;
    /// with no selection, the first row is selected.
    pub fn scroll_up_by(&mut self, amount: u16)
        ensures
            final(self).selected == Some(
                if old(self).selected.unwrap_or(0) < amount {
                    0usize
                } else {
                    (old(self).selected.unwrap_or(0) - amount) as usize
                },
            ),
    {
        let selected = self.selected.unwrap_or(0);
        self.selected = Some(selected.saturating_sub(amount as usize));
    }

    /// Brings the selection in line with a table of `rows` rows, as showing
    /// the table does.
    pub fn show(&mut self, rows: usize)
        ensures
            final(self).selected == shown(old(self).selected, rows as nat),
    {
        match self.selected {
            Some(r) => {
                if rows == 0 {
                    self.selected = None;
                } else if r >= rows {
                    self.selected = Some(rows - 1);
                }
            },
            None => {},
        }
    }
}

/// The distance of a scroll step, whatever its direction.
pub open spec fn distance(delta: i32) -> nat {
    if delta < 0 {
        (-delta) as nat
    } else {
        delta as nat
    }
}

/// Whether a scroll step can be taken from a selection in a table of `rows`
/// rows: a step that leaves the table at one end has to come back in at the
/// other.
pub open spec fn can_scroll(selected: Option<usize>, rows: nat, delta: i32) -> bool {
    match selected {
        Some(r) => if delta < 0 {
            r >= distance(delta) || distance(delta) - r <= rows
        } else {
            r <= rows && r + distance(delta) <= usize::MAX
        },
        None => true,
    }
}

/// The selection after a scroll step in a table of `rows` rows.
///
/// With no selection the first row is selected. A step that stays inside the
/// table moves the selection by the step, counted modulo 65536. A step over
/// the first row comes back in from below the last row, and a step that
/// reaches the end of the table comes back in from the first row.
pub open spec fn scrolled(selected: Option<usize>, rows: nat, delta: i32) -> Option<usize> {
    let d = distance(delta);
    match selected {
        Some(r) => if delta < 0 {
            if r >= d {
                Some((r - d % 0x1_0000) as usize)
            } else {
                Some((rows - (d - r)) as usize)
            }
        } else {
            if r + d < rows {
                Some((r + d % 0x1_0000) as usize)
            } else {
                Some((d - (rows - r)) as usize)
            }
        },
        None => Some(0),
    }
}

/// The distance of a scroll step.
fn magnitude(delta: i32) -> (r: usize)
    ensures
        r == distance(delta),
{
    if delta < 0 {
        (-(delta as i64)) as usize
    } else {
        delta as usize
    }
}

/// Takes a scroll step in a table of `rows` rows.
pub fn scroll_table(state: &mut TableState, rows: usize, delta: i32)
    requires
        can_scroll(old(state).selected, rows as nat, delta),
    ensures
        final(state).selected == scrolled(old(state).selected, rows as nat, delta),
{
    let u_delta = magnitude(delta);
    match state.selected() {
        Some(r) => {
            if delta < 0 {
                if r >= u_delta {
                    state.scroll_up_by((u_delta % 0x1_0000) as u16);
                } else {
                    state.select(Some(rows - (u_delta - r)));
                }
            } else {
                if r + u_delta < rows {
                    state.scroll_down_by((u_delta % 0x1_0000) as u16);
                } else {
                    state.select(Some(u_delta - (rows - r)));
                }
            }
        },
        None => state.select_first(),
    }
}

/// Whether a scroll step can be taken.
pub fn scroll_allowed(state: &TableState, rows: usize, delta: i32) -> (r: bool)
    ensures
        r == can_scroll(state.selected, rows as nat, delta),
{
    let u_delta = magnitude(delta);
    match state.selected() {
        Some(r) => {
            if delta < 0 {
                r >= u_delta || u_delta - r <= rows
            } else {
                r <= rows && u_delta <= usize::MAX - r
            }
        },
        None => true,
    }
}

/// A list in which a selection moves.
pub trait Scroll {
    /// The number of rows of the list that has the focus.
    spec fn rows(&self) -> nat;

    /// The selection in the list that has the focus.
    spec fn cursor(&self) -> Option<usize>;

    /// Whether the value is in order, so that it can scroll.
    spec fn steady(&self) -> bool;

    fn scroll(&mut self, delta: i32)
        requires
            old(self).steady(),
            can_scroll(old(self).cursor(), old(self).rows(), delta),
        ensures
            final(self).steady(),
            final(self).cursor() == scrolled(old(self).cursor(), old(self).rows(), delta),
    ;

    fn scroll_to_top(&mut self)
        requires
            old(self).steady(),
        ensures
            final(self).steady(),
            final(self).cursor() == Some(0usize),
    ;

    fn scroll_to_bottom(&mut self)
        requires
            old(self).steady(),
        ensures
            final(self).steady(),
            final(self).cursor() == Some(
                if old(self).rows() == 0 {
                    0usize
                } else {
                    (old(self).rows() - 1) as usize
                },
            ),
    ;
}

// for use in screens where the view is split into two parts
#[derive(Clone, Copy, Debug, PartialEq, Eq, Structural)]
pub enum FocusedPart {
    /// The left side: the list of groups.
    Groups,
    /// The right side: the songs of the child with this index.
    Child(usize),
}

impl Default for FocusedPart {
    fn default() -> (r: FocusedPart)
        ensures
            r == FocusedPart::Groups,
    {
        FocusedPart::Groups
    }
}

/// A group of songs, such as an album: the tags and the path of each song.
#[derive(Debug, PartialEq, Eq)]
pub struct SongGroup {
    pub metadata: Vec<TagMap>,
    pub paths: Vec<String>,
}

/// The mathematical value of a [`SongGroup`].
pub struct SongGroupView {
    pub metadata: Seq<Map<Seq<char>, Seq<char>>>,
    pub paths: Seq<Seq<char>>,
}

impl View for SongGroup {
    type V = SongGroupView;

    open spec fn view(&self) -> SongGroupView {
        SongGroupView { metadata: tag_maps(self.metadata@), paths: texts(self.paths@) }
    }
}

impl Default for SongGroup {
    fn default() -> (r: SongGroup)
        ensures
            r.metadata@.len() == 0,
            r.paths@.len() == 0,
    {
        SongGroup { metadata: Vec::new(), paths: Vec::new() }
    }
}

impl SongGroup {
    /// Pairs each row of values with the tag names: one map per row.
    pub fn pair_values(keys: &[String], values: &[Vec<Option<String>>]) -> (r: Vec<TagMap>)
        ensures
            tag_maps(r@) == paired_rows(texts(keys@), rows_view(values@)),
    {
        let mut res: Vec<TagMap> = Vec::new();
        let mut i: usize = 0;
        while i < values.len()
            invariant
                i <= values@.len(),
                res@.len() == i,
                forall|k: int|
                    0 <= k < i ==> (#[trigger] res@[k])@ == paired(texts(keys@), row_view(values@[k]@)),
            decreases values@.len() - i,
        {
            let row = &values[i];
            let n: usize = if keys.len() <= row.len() {
                keys.len()
            } else {
                row.len()
            };
            let mut map = TagMap::new();
            let mut j: usize = 0;
            while j < n
                invariant
                    j <= n,
                    n <= keys@.len(),
                    n <= row@.len(),
                    map@ == paired_upto(texts(keys@), row_view(row@), j as nat),
                decreases n - j,
            {
                match &row[j] {
                    Some(value) => {
                        map.insert(keys[j].clone(), value.clone());
                    },
                    None => {},
                }
                j += 1;
            }
            res.push(map);
            i += 1;
        }
        assert(tag_maps(res@) =~= paired_rows(texts(keys@), rows_view(values@)));
        res
    }

    /// A group of the songs given by their tags and paths.
    pub fn new(metadata_keys: &[String], metadata_values: &[Vec<Option<String>>], paths: &[String]) -> (r:
        SongGroup)
        ensures
            r@.metadata == paired_rows(texts(metadata_keys@), rows_view(metadata_values@)),
            r@.paths == texts(paths@),
    {
        let metadata = Self::pair_values(metadata_keys, metadata_values);
        SongGroup { metadata, paths: copy_texts(paths) }
    }

    /// Adds the songs given by their tags and paths at the end of the group.
    pub fn add_songs(
        &mut self,
        metadata_keys: &[String],
        metadata_values: &[Vec<Option<String>>],
        paths: &[String],
    )
        ensures
            final(self)@.metadata == old(self)@.metadata + paired_rows(
                texts(metadata_keys@),
                rows_view(metadata_values@),
            ),
            final(self)@.paths == old(self)@.paths + texts(paths@),
    {
        let mut rows = Self::pair_values(metadata_keys, metadata_values);
        let mut more = copy_texts(paths);
        proof {
            assert(tag_maps(self.metadata@ + rows@) =~= tag_maps(self.metadata@) + tag_maps(rows@));
            assert(texts(self.paths@ + more@) =~= texts(self.paths@) + texts(more@));
        }
        self.metadata.append(&mut rows);
        self.paths.append(&mut more);
    }
}

} // verus!
