use vstd::prelude::*;
use vstd::slice::slice_subrange;
use vstd::string::*;
use std::cmp::Ordering;
use crate::model::common::{scroll_table, scrolled, FocusedPart, Scroll, SongGroup, TableState, TagMap};
use crate::order::{texts_less, texts_lt};
use crate::model::queue::{ordered_rows, shown_order};
use crate::model::search::{real_index, transliterate, unidecode_text, Search, SearchState};
use crate::text::texts;

verus! {

/// One group of the library as it is shown: its songs, the selection among
/// them, and the search in them.
#[derive(Debug, PartialEq, Eq)]
pub struct LibraryChildState {
    pub state: TableState,
    pub id_comb: Vec<String>,  // the combination of tags that identifies these songs
    pub group: SongGroup,
    pub search: Search,
}

/// The library as it is shown: the groups, the side that has the focus, the
/// selection among the groups, and the search in them.
#[derive(Debug, PartialEq, Eq)]
pub struct LibraryState {
    pub state: TableState,
    pub focused_part: FocusedPart,
    pub group_by_tags: Vec<String>,
    pub children_tags: Vec<String>,
    pub children: Vec<LibraryChildState>,  // grouped collections of songs
    pub search: Search,
}

/// The strings of a list, one after the other.
pub open spec fn concat(parts: Seq<Seq<char>>) -> Seq<char>
    decreases parts.len(),
{
    if parts.len() == 0 {
        Seq::empty()
    } else {
        concat(parts.drop_last()) + parts.last()
    }
}

/// The index that a selection stands for under a search.
pub open spec fn real_selected(selected: Option<usize>, search: Search) -> Option<usize> {
    match selected {
        Some(i) => Some(
            if search.tx.is_some() {
                real_index(search.result@, i)
            } else {
                i
            },
        ),
        None => None,
    }
}

impl LibraryChildState {
    /// The text by which a song of the group is searched for: its title in
    /// ASCII, or nothing where it has none.
    pub open spec fn song_repr(row: Map<Seq<char>, Seq<char>>) -> Seq<char> {
        if row.contains_key("tracktitle"@) {
            unidecode_text(row["tracktitle"@])
        } else {
            Seq::empty()
        }
    }

    /// The texts by which the songs of the group are searched for.
    pub open spec fn reprs(self) -> Seq<Seq<char>> {
        Seq::new(self.group.metadata@.len(), |i: int| Self::song_repr(self.group.metadata@[i]@))
    }

    /// A group that was just fetched: nothing selected, no search.
    pub open spec fn fresh(self) -> bool {
        self.state.selected.is_none() && self.search.fresh()
    }

    /// Starts a search in the songs of the group, from the first row.
    pub fn search_on(&mut self)
        ensures
            final(self).state.selected == Some(0usize),
            final(self).id_comb == old(self).id_comb,
            final(self).group == old(self).group,
            old(self).search.started(old(self).reprs(), final(self).search),
    {
        self.state.select_first();
        let list = self.songs_to_repr();
        self.search.on(list);
    }

    pub fn unordered_selected(&self) -> (r: Option<usize>)
        ensures
            r == real_selected(self.state.selected, self.search),
    {
        match self.state.selected() {
            Some(i) => Some(self.search.real_i(i)),
            None => None,
        }
    }

    pub fn songs_to_repr(&self) -> (r: Vec<String>)
        ensures
            texts(r@) == self.reprs(),
    {
        let mut reprs: Vec<String> = Vec::new();
        let mut i: usize = 0;
        while i < self.group.metadata.len()
            invariant
                i <= self.group.metadata@.len(),
                reprs@.len() == i,
                forall|k: int|
                    0 <= k < i ==> (#[trigger] reprs@[k])@ == Self::song_repr(self.group.metadata@[k]@),
            decreases self.group.metadata@.len() - i,
        {
            let repr = match self.group.metadata[i].get("tracktitle") {
                Some(title) => transliterate(title.as_str()),
                None => String::new(),
            };
            reprs.push(repr);
            i += 1;
        }
        assert(texts(reprs@) =~= self.reprs());
        reprs
    }

    /// The number of songs that have both tags and a path.
    pub open spec fn songs(self) -> nat {
        if self.group.metadata@.len() <= self.group.paths@.len() {
            self.group.metadata@.len()
        } else {
            self.group.paths@.len()
        }
    }

    /// The songs of the group, each with its path, in the order in which
    /// they are shown.
    pub fn ordered_group(&self) -> (r: Vec<(&TagMap, &String)>)
        ensures
            r@.len() == shown_order(self.search.state, self.search.result@, self.songs()).len(),
            forall|k: int|
                0 <= k < r@.len() ==> {
                    let row = shown_order(self.search.state, self.search.result@, self.songs())[k] as int;
                    &&& *(#[trigger] r@[k]).0 == self.group.metadata@[row]
                    &&& *r@[k].1 == self.group.paths@[row]
                },
    {
        let n = if self.group.metadata.len() <= self.group.paths.len() {
            self.group.metadata.len()
        } else {
            self.group.paths.len()
        };
        let rows = ordered_rows(&self.search, n);
        let mut ordered: Vec<(&TagMap, &String)> = Vec::new();
        let mut k: usize = 0;
        while k < rows.len()
            invariant
                k <= rows@.len(),
                ordered@.len() == k,
                n <= self.group.metadata@.len(),
                n <= self.group.paths@.len(),
                forall|j: int| 0 <= j < rows@.len() ==> (#[trigger] rows@[j]) < n,
                forall|j: int|
                    0 <= j < k ==> *(#[trigger] ordered@[j]).0 == self.group.metadata@[rows@[j] as int]
                        && *ordered@[j].1 == self.group.paths@[rows@[j] as int],
            decreases rows@.len() - k,
        {
            ordered.push((&self.group.metadata[rows[k]], &self.group.paths[rows[k]]));
            k += 1;
        }
        ordered
    }
}

/// How two groups stand to each other by the tag values that name them.
fn child_order(l: &LibraryChildState, r: &LibraryChildState) -> (o: Ordering)
    ensures
        (o is Less) == texts_lt(texts(l.id_comb@), texts(r.id_comb@)),
        (o is Greater) == (!texts_lt(texts(l.id_comb@), texts(r.id_comb@)) && texts_lt(
            texts(r.id_comb@),
            texts(l.id_comb@),
        )),
{
    if texts_less(&l.id_comb, &r.id_comb) {
        Ordering::Less
    } else if texts_less(&r.id_comb, &l.id_comb) {
        Ordering::Greater
    } else {
        Ordering::Equal
    }
}

/// The groups stand in the order of the tag values that name them.
pub open spec fn sorted_children(children: Seq<LibraryChildState>) -> bool {
    forall|a: int, b: int|
        0 <= a < b < children.len() ==> !texts_lt(
            texts(#[trigger] children[b].id_comb@),
            texts(#[trigger] children[a].id_comb@),
        )
}

/// Sorts the groups by the tag values that name them, with
/// `sort_unstable_by` of std: afterwards the same groups stand in order.
#[verifier::external_body]
fn sort_children(children: &mut Vec<LibraryChildState>)
    ensures
        final(children)@.to_multiset() == old(children)@.to_multiset(),
        sorted_children(final(children)@),
{
    children.sort_unstable_by(|l, r| child_order(l, r));
}

/// Whether a child is one of the groups that were fetched.
pub open spec fn is_group_of(child: LibraryChildState, groups: Seq<(Vec<String>, SongGroup)>) -> bool {
    exists|j: int| 0 <= j < groups.len() && child.id_comb == groups[j].0 && child.group == groups[j].1
}

/// Whether a group that was fetched is one of the children.
pub open spec fn has_group(children: Seq<LibraryChildState>, group: (Vec<String>, SongGroup)) -> bool {
    exists|k: int| 0 <= k < children.len() && children[k].id_comb == group.0 && children[k].group == group.1
}

/// The text by which a group is searched for: the tag values that name it,
/// one after the other, in ASCII.
pub open spec fn group_repr(id_comb: Seq<Seq<char>>) -> Seq<char> {
    unidecode_text(concat(id_comb))
}

impl LibraryState {
    /// The texts by which the groups are searched for.
    pub open spec fn reprs(self) -> Seq<Seq<char>> {
        Seq::new(self.children@.len(), |i: int| group_repr(texts(self.children@[i].id_comb@)))
    }

    /// The index of the group that is selected, where there is such a group.
    pub open spec fn selected_index(self) -> Option<usize> {
        match real_selected(self.state.selected, self.search) {
            Some(i) => if i < self.children@.len() {
                Some(i)
            } else {
                None
            },
            None => None,
        }
    }

    /// What stays in every step but `update`: the tags, and the number of
    /// groups with the names and songs of each.
    pub open spec fn same_groups(self, after: LibraryState) -> bool {
        &&& after.group_by_tags == self.group_by_tags
        &&& after.children_tags == self.children_tags
        &&& after.children@.len() == self.children@.len()
        &&& forall|k: int|
            0 <= k < self.children@.len() ==> (#[trigger] after.children@[k]).id_comb
                == self.children@[k].id_comb && after.children@[k].group == self.children@[k].group
    }

    /// The library after the selection of the focused side was set to
    /// `cursor`, with nothing else changed.
    pub open spec fn moved_to(self, cursor: Option<usize>, after: LibraryState) -> bool {
        &&& self.same_groups(after)
        &&& after.focused_part == self.focused_part
        &&& after.search == self.search
        &&& match self.focused_part {
            FocusedPart::Groups => after.state.selected == cursor && after.children == self.children,
            FocusedPart::Child(i) => after.state == self.state && forall|k: int|
                0 <= k < self.children@.len() ==> #[trigger] after.children@[k] == (if k == i {
                    LibraryChildState { state: TableState { selected: cursor }, ..self.children@[k] }
                } else {
                    self.children@[k]
                }),
        }
    }

    /// The library after a scroll step on the focused side. A step among the
    /// groups ends the search in the songs of the group that was selected.
    pub open spec fn scroll_step(self, delta: i32, after: LibraryState) -> bool {
        &&& self.same_groups(after)
        &&& after.focused_part == self.focused_part
        &&& after.search == self.search
        &&& after.cursor() == scrolled(self.cursor(), self.rows(), delta)
        &&& match self.focused_part {
            FocusedPart::Groups => forall|k: int|
                0 <= k < self.children@.len() ==> {
                    let child = #[trigger] after.children@[k];
                    &&& child.state == self.children@[k].state
                    &&& if self.selected_index() matches Some(i) && i == k {
                        self.children@[k].search.ended(child.search)
                    } else {
                        child.search == self.children@[k].search
                    }
                },
            FocusedPart::Child(i) => self.moved_to(scrolled(self.cursor(), self.rows(), delta), after),
        }
    }

    /// The library after a search was started in the groups.
    pub open spec fn search_started(self, after: LibraryState) -> bool {
        &&& self.same_groups(after)
        &&& after.focused_part == self.focused_part
        &&& after.cursor() == Some(0usize)
        &&& self.search.started(self.reprs(), after.search)
        &&& match self.focused_part {
            FocusedPart::Groups => after.children == self.children,
            FocusedPart::Child(i) => after.state == self.state && forall|k: int|
                0 <= k < self.children@.len() ==> #[trigger] after.children@[k] == (if k == i {
                    LibraryChildState {
                        state: TableState { selected: Some(0usize) },
                        ..self.children@[k]
                    }
                } else {
                    self.children@[k]
                }),
        }
    }

    /// The library after the focus went to the groups: the group that is
    /// selected loses its own selection.
    pub open spec fn focused_left(self, after: LibraryState) -> bool {
        &&& self.same_groups(after)
        &&& after.focused_part == FocusedPart::Groups
        &&& after.state == self.state
        &&& after.search == self.search
        &&& forall|k: int|
            0 <= k < self.children@.len() ==> #[trigger] after.children@[k] == (
            if self.selected_index() matches Some(i) && i == k {
                LibraryChildState { state: TableState { selected: None }, ..self.children@[k] }
            } else {
                self.children@[k]
            })
    }

    /// The library after the focus went to the songs of the group that is
    /// selected, with its first song selected; without a selected group
    /// nothing changes.
    pub open spec fn focused_right(self, after: LibraryState) -> bool {
        &&& self.same_groups(after)
        &&& after.focused_part == (match self.selected_index() {
            Some(i) => FocusedPart::Child(i),
            None => self.focused_part,
        })
        &&& after.state == self.state
        &&& after.search == self.search
        &&& forall|k: int|
            0 <= k < self.children@.len() ==> #[trigger] after.children@[k] == (
            if self.selected_index() matches Some(i) && i == k {
                LibraryChildState { state: TableState { selected: Some(0usize) }, ..self.children@[k] }
            } else {
                self.children@[k]
            })
    }

    /// Whether the side that has the focus is there.
    pub fn is_steady(&self) -> (r: bool)
        ensures
            r == self.steady(),
    {
        match self.focused_part {
            FocusedPart::Groups => true,
            FocusedPart::Child(i) => i < self.children.len(),
        }
    }

    /// A library without songs: nothing selected, the focus on the groups,
    /// no search, and each song listed by number and title.
    pub open spec fn empty(self) -> bool {
        &&& self.state.selected.is_none()
        &&& self.focused_part == FocusedPart::Groups
        &&& texts(self.children_tags@) == seq!["tracknumber"@, "tracktitle"@]
        &&& self.children@.len() == 0
        &&& self.search.fresh()
    }

    /// A library without songs, grouped by the given tags.
    pub fn new(group_by_tags: Vec<String>) -> (r: LibraryState)
        ensures
            r.empty(),
            r.group_by_tags == group_by_tags,
    {
        let children_tags: Vec<String> = vec!["tracknumber".to_string(), "tracktitle".to_string()];
        assert(texts(children_tags@) =~= seq!["tracknumber"@, "tracktitle"@]);
        LibraryState {
            state: TableState::default(),
            focused_part: FocusedPart::Groups,
            group_by_tags,
            children_tags,
            children: Vec::new(),
            search: Search::default(),
        }
    }

    /// The index of the group that is selected.
    pub fn selected_position(&self) -> (r: Option<usize>)
        ensures
            r == self.selected_index(),
    {
        match self.unordered_selected() {
            Some(i) => if i < self.children.len() {
                Some(i)
            } else {
                None
            },
            None => None,
        }
    }

    /// Starts a search in the groups, from the first row of the side that
    /// has the focus.
    pub fn search_on(&mut self)
        requires
            old(self).steady(),
        ensures
            final(self).steady(),
            old(self).search_started(*final(self)),
    {
        let ghost before = *self;
        self.scroll_to_top();
        assert(self.reprs() =~= before.reprs());
        let list = self.children_to_repr();
        self.search.on(list);
    }

    pub fn unordered_selected(&self) -> (r: Option<usize>)
        ensures
            r == real_selected(self.state.selected, self.search),
    {
        match self.state.selected() {
            Some(i) => Some(self.search.real_i(i)),
            None => None,
        }
    }

    pub fn children_to_repr(&self) -> (r: Vec<String>)
        ensures
            texts(r@) == self.reprs(),
    {
        let mut reprs: Vec<String> = Vec::new();
        let mut i: usize = 0;
        while i < self.children.len()
            invariant
                i <= self.children@.len(),
                reprs@.len() == i,
                forall|k: int|
                    0 <= k < i ==> (#[trigger] reprs@[k])@ == group_repr(texts(self.children@[k].id_comb@)),
            decreases self.children@.len() - i,
        {
            let id_comb = &self.children[i].id_comb;
            let mut repr = String::new();
            let mut j: usize = 0;
            assert(texts(id_comb@).take(0) =~= Seq::empty());
            while j < id_comb.len()
                invariant
                    j <= id_comb@.len(),
                    repr@ == concat(texts(id_comb@).take(j as int)),
                decreases id_comb@.len() - j,
            {
                assert(texts(id_comb@).take(j as int + 1).drop_last() =~= texts(id_comb@).take(j as int));
                repr.append(id_comb[j].as_str());
                j += 1;
            }
            assert(texts(id_comb@).take(j as int) =~= texts(id_comb@));
            reprs.push(transliterate(repr.as_str()));
            i += 1;
        }
        assert(texts(reprs@) =~= self.reprs());
        reprs
    }

    /// Takes over the groups that were fetched: they stand in the order of
    /// the tag values that name them, each as a fresh group. The selection
    /// stays on its row as far as there are rows, and the focus goes to the
    /// groups. A search in the groups goes on in the new groups.
    pub fn update(&mut self, grouped_songs: Vec<(Vec<String>, SongGroup)>)
        ensures
            final(self).children@.len() == grouped_songs@.len(),
            sorted_children(final(self).children@),
            forall|k: int|
                0 <= k < final(self).children@.len() ==> (#[trigger] final(self).children@[k]).fresh(),
            forall|k: int|
                0 <= k < final(self).children@.len() ==> is_group_of(
                    #[trigger] final(self).children@[k],
                    grouped_songs@,
                ),
            forall|j: int|
                0 <= j < grouped_songs@.len() ==> has_group(final(self).children@, #[trigger] grouped_songs@[j]),
            final(self).state.selected == (if grouped_songs@.len() == 0 {
                None
            } else {
                Some(
                    match old(self).state.selected {
                        Some(i) => if i < grouped_songs@.len() {
                            i
                        } else {
                            (grouped_songs@.len() - 1) as usize
                        },
                        None => 0usize,
                    },
                )
            }),
            final(self).focused_part == FocusedPart::Groups,
            final(self).steady(),
            final(self).group_by_tags == old(self).group_by_tags,
            final(self).children_tags == old(self).children_tags,
            old(self).search.relisted(final(self).reprs(), final(self).search),
    {
        broadcast use vstd::seq_lib::group_to_multiset_ensures;

        let ghost groups = grouped_songs@;
        let mut rest = grouped_songs;
        assert(rest@ =~= groups.take(rest@.len() as int));
        let mut children: Vec<LibraryChildState> = Vec::new();
        while rest.len() > 0
            invariant
                children@.len() + rest@.len() == groups.len(),
                rest@ == groups.take(rest@.len() as int),
                forall|k: int| 0 <= k < children@.len() ==> (#[trigger] children@[k]).fresh(),
                forall|k: int|
                    0 <= k < children@.len() ==> (#[trigger] children@[k]).id_comb == groups[groups.len()
                        - 1 - k].0 && children@[k].group == groups[groups.len() - 1 - k].1,
            decreases rest@.len(),
        {
            let ghost n = rest@.len();
            match rest.pop() {
                Some((id_comb, group)) => {
                    assert(rest@ =~= groups.take(n - 1));
                    children.push(
                        LibraryChildState {
                            state: TableState::default(),
                            id_comb,
                            group,
                            search: Search::default(),
                        },
                    );
                },
                None => {},
            }
        }
        let ghost unsorted = children@;
        sort_children(&mut children);
        proof {
            unsorted.to_multiset_ensures();
            children@.to_multiset_ensures();
            assert forall|k: int| 0 <= k < children@.len() implies (#[trigger] children@[k]).fresh()
                && is_group_of(children@[k], groups) by {
                assert(children@.contains(children@[k]));
                assert(unsorted.to_multiset().count(children@[k]) > 0);
                assert(unsorted.contains(children@[k]));
                let u = choose|u: int| 0 <= u < unsorted.len() && unsorted[u] == children@[k];
                assert(children@[k].id_comb == groups[groups.len() - 1 - u].0);
            }
            assert forall|j: int| 0 <= j < groups.len() implies has_group(
                children@,
                #[trigger] groups[j],
            ) by {
                let u = groups.len() - 1 - j;
                assert(unsorted.contains(unsorted[u]));
                assert(children@.to_multiset().count(unsorted[u]) > 0);
                assert(children@.contains(unsorted[u]));
                let k = choose|k: int| 0 <= k < children@.len() && children@[k] == unsorted[u];
                assert(children@[k].id_comb == groups[j].0);
            }
        }
        self.children = children;
        if self.children.len() == 0 {
            self.state.select(None);
        } else {
            let last = self.children.len() - 1;
            let row = match self.state.selected() {
                Some(i) => if i < last {
                    i
                } else {
                    last
                },
                None => 0,
            };
            self.state.select(Some(row));
        }
        self.focused_part = FocusedPart::Groups;
        let list = self.children_to_repr();
        self.search.list_changed(list);
    }

    pub fn selected_child(&self) -> (r: Option<&LibraryChildState>)
        ensures
            match r {
                Some(child) => self.selected_index() matches Some(i) && *child == self.children@[i as int],
                None => self.selected_index().is_none(),
            },
    {
        match self.selected_position() {
            Some(i) => Some(&self.children[i]),
            None => None,
        }
    }

    pub fn selected_child_mut(&mut self) -> (r: Option<&mut LibraryChildState>)
        ensures
            match r {
                Some(child) => old(self).selected_index() matches Some(i) && *child == old(self).children@[i as int]
                    && *final(self) == (LibraryState {
                    children: final(self).children,
                    ..*old(self)
                }) && final(self).children@ == old(self).children@.update(i as int, *final(child)),
                None => old(self).selected_index().is_none() && *final(self) == *old(self),
            },
    {
        match self.selected_position() {
            Some(i) => Some(&mut self.children[i]),
            None => None,
        }
    }

    /// The paths of the songs that are selected: all songs of the selected
    /// group where the groups have the focus, and otherwise the selected
    /// song of the group that has the focus.
    pub open spec fn selection(self) -> Option<Seq<Seq<char>>> {
        match self.focused_part {
            FocusedPart::Groups => match self.selected_index() {
                Some(i) => Some(texts(self.children@[i as int].group.paths@)),
                None => None,
            },
            FocusedPart::Child(i) => if i < self.children@.len() {
                let child = self.children@[i as int];
                match real_selected(child.state.selected, child.search) {
                    Some(j) => if j < child.group.paths@.len() {
                        Some(seq![child.group.paths@[j as int]@])
                    } else {
                        None
                    },
                    None => None,
                }
            } else {
                None
            },
        }
    }

    pub fn selected_songs(&self) -> (r: Option<&[String]>)
        ensures
            match r {
                Some(paths) => self.selection() == Some(texts(paths@)),
                None => self.selection().is_none(),
            },
    {
        match self.focused_part {
            FocusedPart::Groups => match self.selected_child() {
                Some(child) => Some(child.group.paths.as_slice()),
                None => None,
            },
            FocusedPart::Child(i) => {
                if i < self.children.len() {
                    let child = &self.children[i];
                    match child.unordered_selected() {
                        Some(j) => {
                            if j < child.group.paths.len() {
                                let one = slice_subrange(child.group.paths.as_slice(), j, j + 1);
                                assert(texts(one@) =~= seq![child.group.paths@[j as int]@]);
                                Some(one)
                            } else {
                                None
                            }
                        },
                        None => None,
                    }
                } else {
                    None
                }
            },
        }
    }

    /// Gives the focus to the groups. The group that is selected loses its
    /// own selection.
    pub fn focus_left(&mut self)
        ensures
            old(self).focused_left(*final(self)),
            final(self).steady(),
    {
        match self.selected_position() {
            Some(real_i) => {
                self.children[real_i].state.select(None);
            },
            None => {},
        }
        self.focused_part = FocusedPart::Groups;
    }

    /// Gives the focus to the songs of the group that is selected, with its
    /// first song selected. Without a selected group nothing changes.
    pub fn focus_right(&mut self)
        requires
            old(self).steady(),
        ensures
            final(self).steady(),
            old(self).focused_right(*final(self)),
    {
        match self.selected_position() {
            Some(real_i) => {
                self.children[real_i].state.select_first();
                self.focused_part = FocusedPart::Child(real_i);
            },
            None => {},
        }
    }

    /// The groups in the order in which they are shown.
    pub fn ordered_children(&self) -> (r: Vec<&LibraryChildState>)
        ensures
            r@.len() == shown_order(self.search.state, self.search.result@, self.children@.len()).len(),
            forall|k: int|
                0 <= k < r@.len() ==> *(#[trigger] r@[k]) == self.children@[shown_order(
                    self.search.state,
                    self.search.result@,
                    self.children@.len(),
                )[k] as int],
    {
        let rows = ordered_rows(&self.search, self.children.len());
        let mut ordered: Vec<&LibraryChildState> = Vec::new();
        let mut k: usize = 0;
        while k < rows.len()
            invariant
                k <= rows@.len(),
                ordered@.len() == k,
                forall|j: int| 0 <= j < rows@.len() ==> (#[trigger] rows@[j]) < self.children@.len(),
                forall|j: int| 0 <= j < k ==> *(#[trigger] ordered@[j]) == self.children@[rows@[j] as int],
            decreases rows@.len() - k,
        {
            ordered.push(&self.children[rows[k]]);
            k += 1;
        }
        ordered
    }
}

impl Default for LibraryState {
    fn default() -> (r: LibraryState)
        ensures
            r.empty(),
            texts(r.group_by_tags@) == seq!["albumartist"@, "album"@],
    {
        let group_by_tags: Vec<String> = vec!["albumartist".to_string(), "album".to_string()];
        assert(texts(group_by_tags@) =~= seq!["albumartist"@, "album"@]);
        LibraryState::new(group_by_tags)
    }
}

impl Scroll for LibraryState {
    open spec fn rows(&self) -> nat {
        match self.focused_part {
            FocusedPart::Groups => self.children@.len(),
            FocusedPart::Child(i) => self.children@[i as int].group.paths@.len(),
        }
    }

    open spec fn cursor(&self) -> Option<usize> {
        match self.focused_part {
            FocusedPart::Groups => self.state.selected,
            FocusedPart::Child(i) => self.children@[i as int].state.selected,
        }
    }

    open spec fn steady(&self) -> bool {
        self.focused_part matches FocusedPart::Child(i) ==> i < self.children@.len()
    }

    /// Moves the selection on the side that has the focus. A step among the
    /// groups ends the search in the songs of the group that was selected.
    fn scroll(&mut self, delta: i32)
        ensures
            old(self).scroll_step(delta, *final(self)),
    {
        match self.focused_part {
            FocusedPart::Groups => {
                match self.selected_position() {
                    Some(i) => {
                        self.children[i].search.off();
                    },
                    None => {},
                }
                let n_rows = self.children.len();
                scroll_table(&mut self.state, n_rows, delta);
            },
            FocusedPart::Child(i) => {
                let n_rows = self.children[i].group.paths.len();
                scroll_table(&mut self.children[i].state, n_rows, delta);
            },
        }
    }

    fn scroll_to_top(&mut self)
        ensures
            old(self).moved_to(Some(0usize), *final(self)),
    {
        match self.focused_part {
            FocusedPart::Groups => self.state.select_first(),
            FocusedPart::Child(i) => self.children[i].state.select_first(),
        }
    }

    fn scroll_to_bottom(&mut self)
        ensures
            old(self).moved_to(
                Some(
                    if old(self).rows() == 0 {
                        0usize
                    } else {
                        (old(self).rows() - 1) as usize
                    },
                ),
                *final(self),
            ),
    {
        match self.focused_part {
            FocusedPart::Groups => {
                let n = self.children.len();
                self.state.select(Some(n.saturating_sub(1)));
            },
            FocusedPart::Child(i) => {
                let n = self.children[i].group.paths.len();
                self.children[i].state.select(Some(n.saturating_sub(1)));
            },
        }
    }
}

} // verus!
