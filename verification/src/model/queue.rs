use vstd::prelude::*;
use vstd::string::*;
use crate::model::common::{scroll_table, Scroll, TableState, TagMap};
use crate::model::search::{identity, transliterate, unidecode_text, Search, SearchState};
use crate::text::texts;

verus! {

/// The queue as it is shown: the tags of its songs, the selection, and the
/// search in it.
#[derive(Debug, PartialEq, Eq)]
pub struct QueueState {
    pub state: TableState,
    pub metadata: Vec<TagMap>,
    pub displayed_tags: Vec<String>,  // tags to be displayed to the user
    pub search: Search,
}

/// The values that a song has for the first `n` of some tags, one after the
/// other.
pub open spec fn joined_tags(row: Map<Seq<char>, Seq<char>>, tags: Seq<Seq<char>>, n: nat) -> Seq<char>
    decreases n,
{
    if n == 0 {
        Seq::empty()
    } else {
        let rest = joined_tags(row, tags, (n - 1) as nat);
        if row.contains_key(tags[n - 1]) {
            rest + row[tags[n - 1]]
        } else {
            rest
        }
    }
}

/// The text by which a song is searched for: its values for the tags, one
/// after the other, in ASCII.
pub open spec fn repr_of(row: Map<Seq<char>, Seq<char>>, tags: Seq<Seq<char>>) -> Seq<char> {
    unidecode_text(joined_tags(row, tags, tags.len()))
}

/// The entries of an order that are rows of a list of `n` rows, in order.
pub open spec fn visible(order: Seq<usize>, n: nat) -> Seq<usize>
    decreases order.len(),
{
    if order.len() == 0 {
        Seq::empty()
    } else if order.last() < n {
        visible(order.drop_last(), n).push(order.last())
    } else {
        visible(order.drop_last(), n)
    }
}

/// The rows of a list of `n` rows in the order in which a search shows
/// them: all of them in their own order where the search is off, and
/// otherwise those that the order of the search names.
pub open spec fn shown_order(state: SearchState, order: Seq<usize>, n: nat) -> Seq<usize> {
    if state == SearchState::Off {
        identity(n)
    } else {
        visible(order, n)
    }
}

/// Every entry of what is visible is a row.
pub proof fn lemma_visible_in_range(order: Seq<usize>, n: nat)
    ensures
        forall|k: int| 0 <= k < visible(order, n).len() ==> (#[trigger] visible(order, n)[k]) < n,
    decreases order.len(),
{
    if order.len() > 0 {
        lemma_visible_in_range(order.drop_last(), n);
        let rest = visible(order.drop_last(), n);
        assert forall|k: int| 0 <= k < visible(order, n).len() implies (#[trigger] visible(order, n)[k])
            < n by {
            if k < rest.len() {
                assert(visible(order, n)[k] == rest[k]);
            }
        }
    }
}

/// The rows that a search shows, as indices.
pub fn ordered_rows(search: &Search, n: usize) -> (r: Vec<usize>)
    ensures
        r@ == shown_order(search.state, search.result@, n as nat),
        forall|k: int| 0 <= k < r@.len() ==> (#[trigger] r@[k]) < n,
{
    let mut rows: Vec<usize> = Vec::new();
    match search.state {
        SearchState::Off => {
            let mut i: usize = 0;
            while i < n
                invariant
                    i <= n,
                    rows@.len() == i,
                    forall|k: int| 0 <= k < i ==> rows@[k] == k as usize,
                decreases n - i,
            {
                rows.push(i);
                i += 1;
            }
            assert(rows@ =~= identity(n as nat));
        },
        _ => {
            let order = &search.result;
            let mut i: usize = 0;
            assert(order@.take(0) =~= Seq::empty());
            while i < order.len()
                invariant
                    i <= order@.len(),
                    rows@ == visible(order@.take(i as int), n as nat),
                decreases order@.len() - i,
            {
                assert(order@.take(i as int + 1).drop_last() =~= order@.take(i as int));
                if order[i] < n {
                    rows.push(order[i]);
                }
                i += 1;
            }
            assert(order@.take(i as int) =~= order@);
            proof {
                lemma_visible_in_range(order@, n as nat);
            }
        },
    }
    rows
}

impl QueueState {
    /// A queue without songs: nothing selected, no search, and each song
    /// shown by title, artist and album.
    pub open spec fn empty(self) -> bool {
        &&& self.state.selected.is_none()
        &&& self.metadata@.len() == 0
        &&& texts(self.displayed_tags@) == seq!["tracktitle"@, "artist"@, "album"@]
        &&& self.search.fresh()
    }
}

impl Default for QueueState {
    fn default() -> (r: QueueState)
        ensures
            r.empty(),
    {
        let displayed_tags: Vec<String> = vec![
            "tracktitle".to_string(),
            "artist".to_string(),
            "album".to_string(),
        ];
        assert(texts(displayed_tags@) =~= seq!["tracktitle"@, "artist"@, "album"@]);
        QueueState {
            state: TableState::default(),
            metadata: Vec::new(),
            displayed_tags,
            search: Search::default(),
        }
    }
}

impl Scroll for QueueState {
    open spec fn rows(&self) -> nat {
        self.metadata@.len()
    }

    open spec fn cursor(&self) -> Option<usize> {
        self.state.selected
    }

    open spec fn steady(&self) -> bool {
        true
    }

    fn scroll(&mut self, delta: i32)
        ensures
            final(self).metadata == old(self).metadata,
            final(self).displayed_tags == old(self).displayed_tags,
            final(self).search == old(self).search,
    {
        let n_rows = self.metadata.len();
        scroll_table(&mut self.state, n_rows, delta);
    }

    fn scroll_to_top(&mut self)
        ensures
            final(self).metadata == old(self).metadata,
            final(self).displayed_tags == old(self).displayed_tags,
            final(self).search == old(self).search,
    {
        self.state.select_first();
    }

    fn scroll_to_bottom(&mut self)
        ensures
            final(self).metadata == old(self).metadata,
            final(self).displayed_tags == old(self).displayed_tags,
            final(self).search == old(self).search,
    {
        let n = self.metadata.len();
        self.state.select(Some(n.saturating_sub(1)));
    }
}

/// The text by which one song is searched for.
pub fn row_repr(row: &TagMap, tags: &Vec<String>) -> (r: String)
    ensures
        r@ == repr_of(row@, texts(tags@)),
{
    let mut repr = String::new();
    let mut j: usize = 0;
    while j < tags.len()
        invariant
            j <= tags@.len(),
            repr@ == joined_tags(row@, texts(tags@), j as nat),
        decreases tags@.len() - j,
    {
        match row.get(tags[j].as_str()) {
            Some(value) => {
                repr.append(value.as_str());
            },
            None => {},
        }
        j += 1;
    }
    transliterate(repr.as_str())
}

impl QueueState {
    /// The texts by which the songs of the queue are searched for.
    pub open spec fn reprs(self) -> Seq<Seq<char>> {
        Seq::new(
            self.metadata@.len(),
            |i: int| repr_of(self.metadata@[i]@, texts(self.displayed_tags@)),
        )
    }

    /// Starts a search in the queue, from the first row.
    pub fn search_on(&mut self)
        ensures
            final(self).state.selected == Some(0usize),
            final(self).metadata == old(self).metadata,
            final(self).displayed_tags == old(self).displayed_tags,
            old(self).search.started(old(self).reprs(), final(self).search),
    {
        self.scroll_to_top();
        let list = self.metadata_to_repr();
        self.search.on(list);
    }

    // returns the currently selected index, but taking into account
    // the fact that the view may be sorted in a different order
    pub fn unordered_selected(&self) -> (r: Option<usize>)
        ensures
            r == match self.state.selected {
                Some(i) => Some(
                    if self.search.tx.is_some() {
                        crate::model::search::real_index(self.search.result@, i)
                    } else {
                        i
                    },
                ),
                None => None,
            },
    {
        match self.state.selected() {
            Some(i) => Some(self.search.real_i(i)),
            None => None,
        }
    }

    pub fn metadata_to_repr(&self) -> (r: Vec<String>)
        ensures
            texts(r@) == self.reprs(),
    {
        let mut reprs: Vec<String> = Vec::new();
        let mut i: usize = 0;
        while i < self.metadata.len()
            invariant
                i <= self.metadata@.len(),
                reprs@.len() == i,
                forall|k: int|
                    0 <= k < i ==> (#[trigger] reprs@[k])@ == repr_of(
                        self.metadata@[k]@,
                        texts(self.displayed_tags@),
                    ),
            decreases self.metadata@.len() - i,
        {
            reprs.push(row_repr(&self.metadata[i], &self.displayed_tags));
            i += 1;
        }
        assert(texts(reprs@) =~= self.reprs());
        reprs
    }

    /// The songs in the order in which they are shown.
    pub fn ordered_metadata(&self) -> (r: Vec<&TagMap>)
        ensures
            r@.len() == shown_order(self.search.state, self.search.result@, self.metadata@.len()).len(),
            forall|k: int|
                0 <= k < r@.len() ==> *(#[trigger] r@[k]) == self.metadata@[shown_order(
                    self.search.state,
                    self.search.result@,
                    self.metadata@.len(),
                )[k] as int],
    {
        let rows = ordered_rows(&self.search, self.metadata.len());
        let mut ordered: Vec<&TagMap> = Vec::new();
        let mut k: usize = 0;
        while k < rows.len()
            invariant
                k <= rows@.len(),
                ordered@.len() == k,
                forall|j: int| 0 <= j < rows@.len() ==> (#[trigger] rows@[j]) < self.metadata@.len(),
                forall|j: int| 0 <= j < k ==> *(#[trigger] ordered@[j]) == self.metadata@[rows@[j] as int],
            decreases rows@.len() - k,
        {
            ordered.push(&self.metadata[rows[k]]);
            k += 1;
        }
        ordered
    }
}

} // verus!
