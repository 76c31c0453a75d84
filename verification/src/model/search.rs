use vstd::prelude::*;
use vstd::relations::{sorted_by, total_ordering};
use vstd::seq_lib::lemma_sorted_unique;
use fuzzy_matcher::skim::SkimMatcherV2;
use rayon::slice::ParallelSliceMut;
use crate::text::texts;

verus! {

/// The score that the skim matcher gives a candidate for a pattern when it
/// ignores case, or `None` where the pattern is no subsequence of the
/// candidate.
pub uninterp spec fn skim_score(choice: Seq<char>, pattern: Seq<char>) -> Option<i64>;

/// The ASCII transliteration that `unidecode` gives a text.
pub uninterp spec fn unidecode_text(text: Seq<char>) -> Seq<char>;

/// Scores a candidate against a pattern with `SkimMatcherV2::fuzzy` of
/// `fuzzy_matcher`, set to ignore case and asked for no positions. The
/// score is the matcher's: it computes it in 32 bits, and it is 0 for an
/// empty pattern.
#[verifier::external_body]
fn fuzzy(choice: &str, pattern: &str) -> (r: Option<i64>)
    ensures
        r == skim_score(choice@, pattern@),
        r matches Some(score) ==> i32::MIN <= score <= i32::MAX,
        pattern@.len() == 0 ==> r == Some(0i64),
{
    SkimMatcherV2::default().ignore_case().fuzzy(choice, pattern, false).map(|(score, _)| score)
}

/// Transliterates a text to ASCII with `unidecode::unidecode`.
#[verifier::external_body]
pub(crate) fn transliterate(text: &str) -> (r: String)
    ensures
        r@ == unidecode_text(text@),
{
    unidecode::unidecode(text)
}

/// The order of the pairs of a key and an index: by key, and by index where
/// the keys are equal.
pub open spec fn pair_leq() -> spec_fn((i64, usize), (i64, usize)) -> bool {
    |a: (i64, usize), b: (i64, usize)| a.0 < b.0 || (a.0 == b.0 && a.1 <= b.1)
}

/// Sorts pairs with `par_sort_unstable` of `rayon`: afterwards the same
/// pairs stand in ascending order, which for pairs of integers is the order
/// by the first and then by the second.
#[verifier::external_body]
fn sort_pairs(pairs: &mut Vec<(i64, usize)>)
    ensures
        final(pairs)@.to_multiset() == old(pairs)@.to_multiset(),
        sorted_by(final(pairs)@, pair_leq()),
{
    pairs.par_sort_unstable();
}

/// Each key with its index.
pub open spec fn keyed(keys: Seq<i64>) -> Seq<(i64, usize)> {
    Seq::new(keys.len(), |i: int| (keys[i], i as usize))
}

/// The indices of the keys in ascending order of the keys; indices of equal
/// keys stand in ascending order.
pub open spec fn ranking(keys: Seq<i64>) -> Seq<usize> {
    keyed(keys).sort_by(pair_leq()).map_values(|p: (i64, usize)| p.1)
}

/// The order of the pairs is a total order.
pub proof fn lemma_pair_leq_total()
    ensures
        total_ordering(pair_leq()),
{
    let leq = pair_leq();
    assert(vstd::relations::reflexive(leq));
    assert(vstd::relations::antisymmetric(leq));
    assert(vstd::relations::transitive(leq));
    assert(vstd::relations::strongly_connected(leq));
}

/// The sorted pairs are the pairs of the keys: each index once, with its key.
pub proof fn lemma_sorted_pairs(keys: Seq<i64>)
    requires
        keys.len() <= usize::MAX,
    ensures
        keyed(keys).sort_by(pair_leq()).len() == keys.len(),
        sorted_by(keyed(keys).sort_by(pair_leq()), pair_leq()),
        keyed(keys).sort_by(pair_leq()).no_duplicates(),
        forall|j: int|
            0 <= j < keys.len() ==> {
                let p = #[trigger] keyed(keys).sort_by(pair_leq())[j];
                p.1 < keys.len() && p.0 == keys[p.1 as int]
            },
        forall|i: int|
            0 <= i < keys.len() ==> keyed(keys).sort_by(pair_leq()).contains(#[trigger] keyed(keys)[i]),
{
    broadcast use vstd::seq_lib::group_to_multiset_ensures;

    let p = keyed(keys);
    let q = p.sort_by(pair_leq());
    lemma_pair_leq_total();
    p.lemma_sort_by_ensures(pair_leq());
    p.to_multiset_ensures();
    q.to_multiset_ensures();
    assert(q.len() == p.len());
    assert(p.no_duplicates());
    p.lemma_multiset_has_no_duplicates();
    q.lemma_multiset_has_no_duplicates_conv();
    assert forall|j: int| 0 <= j < keys.len() implies {
        let x = #[trigger] q[j];
        x.1 < keys.len() && x.0 == keys[x.1 as int]
    } by {
        let x = q[j];
        assert(q.contains(x));
        assert(p.contains(x));
        let i = choose|i: int| 0 <= i < p.len() && p[i] == x;
        assert(x == (keys[i], i as usize));
    }
    assert forall|i: int| 0 <= i < keys.len() implies q.contains(#[trigger] p[i]) by {
        assert(p.contains(p[i]));
        assert(p.to_multiset().count(p[i]) > 0);
    }
}

/// The ranking is a permutation of the indices: it has each index exactly
/// once.
pub proof fn law_ranking_is_permutation(keys: Seq<i64>)
    requires
        keys.len() <= usize::MAX,
    ensures
        ranking(keys).len() == keys.len(),
        forall|j: int| 0 <= j < keys.len() ==> (#[trigger] ranking(keys)[j]) < keys.len(),
        ranking(keys).no_duplicates(),
        forall|i: usize| i < keys.len() ==> #[trigger] ranking(keys).contains(i),
{
    lemma_sorted_pairs(keys);
    let q = keyed(keys).sort_by(pair_leq());
    let r = ranking(keys);
    assert forall|a: int, b: int| 0 <= a < r.len() && 0 <= b < r.len() && a != b implies r[a]
        != r[b] by {
        if r[a] == r[b] {
            assert(q[a].1 == q[b].1);
            assert(q[a] == q[b]);
        }
    }
    assert forall|i: usize| i < keys.len() implies #[trigger] r.contains(i) by {
        let x = keyed(keys)[i as int];
        assert(q.contains(x));
        let j = choose|j: int| 0 <= j < q.len() && q[j] == x;
        assert(r[j] == i);
    }
}

/// The ranking goes by key, and among equal keys by index: of two places,
/// the earlier holds the smaller key, or the same key and the smaller index.
pub proof fn law_ranking_is_stable(keys: Seq<i64>, a: int, b: int)
    requires
        keys.len() <= usize::MAX,
        0 <= a < b < keys.len(),
    ensures
        ranking(keys).len() == keys.len(),
        ranking(keys)[a] < keys.len(),
        ranking(keys)[b] < keys.len(),
        keys[ranking(keys)[a] as int] < keys[ranking(keys)[b] as int] || (keys[ranking(
            keys,
        )[a] as int] == keys[ranking(keys)[b] as int] && ranking(keys)[a] < ranking(keys)[b]),
{
    lemma_sorted_pairs(keys);
    law_ranking_is_permutation(keys);
    let q = keyed(keys).sort_by(pair_leq());
    assert(pair_leq()(q[a], q[b]));
    assert(q[a] == (keys[q[a].1 as int], q[a].1));
    assert(q[b] == (keys[q[b].1 as int], q[b].1));
    assert(ranking(keys)[a] != ranking(keys)[b]);
}

/// Whether an order of the indices of some keys goes by key, and by index
/// among equal keys, and has each index exactly once.
pub open spec fn is_ranking(keys: Seq<i64>, order: Seq<usize>) -> bool {
    &&& order.len() == keys.len()
    &&& forall|j: int| 0 <= j < order.len() ==> (#[trigger] order[j]) < keys.len()
    &&& order.no_duplicates()
    &&& forall|a: int, b: int|
        0 <= a < b < order.len() ==> keys[(#[trigger] order[a]) as int] < keys[(
        #[trigger] order[b]) as int] || (keys[order[a] as int] == keys[order[b] as int] && order[a]
            < order[b])
}

/// There is one order that goes by key and then by index: the ranking. So
/// the same keys are ranked the same way each time, and where keys are equal
/// the order of the indices decides.
pub proof fn law_ranking_is_unique(keys: Seq<i64>, order: Seq<usize>)
    requires
        keys.len() <= usize::MAX,
    ensures
        is_ranking(keys, ranking(keys)),
        is_ranking(keys, order) ==> order == ranking(keys),
{
    law_ranking_is_permutation(keys);
    assert forall|a: int, b: int| 0 <= a < b < keys.len() implies keys[(#[trigger] ranking(
        keys,
    )[a]) as int] < keys[(#[trigger] ranking(keys)[b]) as int] || (keys[ranking(keys)[a] as int]
        == keys[ranking(keys)[b] as int] && ranking(keys)[a] < ranking(keys)[b]) by {
        law_ranking_is_stable(keys, a, b);
    }
    if is_ranking(keys, order) {
        let p = keyed(keys);
        let q = Seq::new(order.len(), |j: int| (keys[order[j] as int], order[j]));
        lemma_pair_leq_total();
        p.lemma_sort_by_ensures(pair_leq());
        assert(sorted_by(q, pair_leq()));
        // both hold each pair once, and each pair of `q` is one of `p`
        assert(p.no_duplicates());
        assert(q.no_duplicates()) by {
            assert forall|a: int, b: int| 0 <= a < q.len() && 0 <= b < q.len() && a != b implies q[a]
                != q[b] by {
                assert(order[a] != order[b]);
            }
        }
        p.unique_seq_to_set();
        q.unique_seq_to_set();
        vstd::seq_lib::seq_to_set_is_finite(p);
        vstd::seq_lib::seq_to_set_is_finite(q);
        assert(q.to_set().subset_of(p.to_set())) by {
            assert forall|x: (i64, usize)| q.to_set().contains(x) implies p.to_set().contains(x) by {
                let j = choose|j: int| 0 <= j < q.len() && q[j] == x;
                assert(p[order[j] as int] == x);
            }
        }
        vstd::set_lib::lemma_subset_equality(q.to_set(), p.to_set());
        p.lemma_multiset_has_no_duplicates();
        q.lemma_multiset_has_no_duplicates();
        p.to_multiset_ensures();
        q.to_multiset_ensures();
        assert(q.to_multiset() =~= p.to_multiset()) by {
            assert forall|x: (i64, usize)| q.to_multiset().count(x) == p.to_multiset().count(x) by {
                assert(q.contains(x) == q.to_set().contains(x));
                assert(p.contains(x) == p.to_set().contains(x));
            }
        }
        lemma_sorted_unique(q, p.sort_by(pair_leq()), pair_leq());
        assert(order =~= ranking(keys));
    }
}

/// Where all keys are equal, the ranking is the order of the indices.
pub proof fn lemma_ranking_of_equal_keys(keys: Seq<i64>)
    requires
        keys.len() <= usize::MAX,
        forall|i: int, j: int| 0 <= i < keys.len() && 0 <= j < keys.len() ==> keys[i] == keys[j],
    ensures
        ranking(keys) == identity(keys.len()),
{
    lemma_pair_leq_total();
    let p = keyed(keys);
    p.lemma_sort_by_ensures(pair_leq());
    assert(sorted_by(p, pair_leq())) by {
        assert forall|i: int, j: int| 0 <= i < j < p.len() implies #[trigger] pair_leq()(p[i], p[j]) by {
            assert(p[i] == (keys[i], i as usize));
            assert(p[j] == (keys[j], j as usize));
        }
    }
    lemma_sorted_unique(p, p.sort_by(pair_leq()), pair_leq());
    assert(ranking(keys) =~= identity(keys.len()));
}

/// Ranks the indices of the keys: by ascending key, and by ascending index
/// among equal keys.
pub fn rank(keys: &Vec<i64>) -> (r: Vec<usize>)
    ensures
        r@ == ranking(keys@),
{
    let mut pairs: Vec<(i64, usize)> = Vec::new();
    let mut i: usize = 0;
    while i < keys.len()
        invariant
            i <= keys@.len(),
            pairs@.len() == i,
            forall|k: int| 0 <= k < i ==> pairs@[k] == (keys@[k], k as usize),
        decreases keys@.len() - i,
    {
        pairs.push((keys[i], i));
        i += 1;
    }
    assert(pairs@ =~= keyed(keys@));
    sort_pairs(&mut pairs);
    proof {
        lemma_pair_leq_total();
        keyed(keys@).lemma_sort_by_ensures(pair_leq());
        lemma_sorted_unique(pairs@, keyed(keys@).sort_by(pair_leq()), pair_leq());
    }
    let mut order: Vec<usize> = Vec::new();
    let mut j: usize = 0;
    while j < pairs.len()
        invariant
            j <= pairs@.len(),
            order@.len() == j,
            forall|k: int| 0 <= k < j ==> order@[k] == pairs@[k].1,
        decreases pairs@.len() - j,
    {
        order.push(pairs[j].1);
        j += 1;
    }
    assert(order@ =~= ranking(keys@));
    order
}

/// The score of a candidate that the pattern does not match: below the
/// score of every candidate that it matches.
pub const LOWEST_SCORE: i64 = -0x7fff_ffff_ffff_ffff;

/// The score by which a candidate is ranked for a pattern: the score of the
/// matcher where the pattern matches, and the lowest score where it does
/// not.
pub open spec fn score_of(choice: Seq<char>, pattern: Seq<char>) -> i64 {
    match skim_score(choice, pattern) {
        Some(score) => score,
        None => LOWEST_SCORE,
    }
}

/// The matcher keeps its scores for the candidates of a list within 32
/// bits, and so above the lowest score.
pub open spec fn scores_in_range(list: Seq<Seq<char>>, pattern: Seq<char>) -> bool {
    forall|k: int|
        0 <= k < list.len() ==> (#[trigger] skim_score(list[k], pattern) matches Some(score) ==> i32::MIN
            <= score <= i32::MAX)
}

/// The key by which a candidate is ranked for a pattern: its score,
/// negated so that the best comes first. A candidate that the pattern does
/// not match has the greatest key, and comes after every match.
pub open spec fn key_of(choice: Seq<char>, pattern: Seq<char>) -> i64 {
    match skim_score(choice, pattern) {
        Some(score) => (-score) as i64,
        None => i64::MAX,
    }
}

/// The keys of the candidates of a list.
pub open spec fn keys_of(list: Seq<Seq<char>>, pattern: Seq<char>) -> Seq<i64> {
    list.map_values(|choice: Seq<char>| key_of(choice, pattern))
}

/// Whether an order of the candidates of a list goes by descending score,
/// and among equal scores by the order of the list.
pub open spec fn descending(list: Seq<Seq<char>>, pattern: Seq<char>, order: Seq<usize>) -> bool {
    forall|a: int, b: int|
        0 <= a < b < order.len() ==> {
            let first = score_of(list[(#[trigger] order[a]) as int], pattern);
            let second = score_of(list[(#[trigger] order[b]) as int], pattern);
            first > second || (first == second && order[a] < order[b])
        }
}

/// The ranking of the candidates of a list goes by descending score, ties
/// in the order of the list. A candidate that the pattern does not match
/// has the lowest score, so it stands after every candidate that the
/// pattern matches, and the candidates without a match stand in the order
/// of the list.
pub proof fn law_ranking_is_descending(list: Seq<Seq<char>>, pattern: Seq<char>)
    requires
        list.len() <= usize::MAX,
        scores_in_range(list, pattern),
    ensures
        descending(list, pattern, ranking(keys_of(list, pattern))),
        forall|a: int, b: int|
            0 <= a < b < list.len() && skim_score(
                list[(#[trigger] ranking(keys_of(list, pattern))[a]) as int],
                pattern,
            ) is None ==> skim_score(
                list[(#[trigger] ranking(keys_of(list, pattern))[b]) as int],
                pattern,
            ) is None,
{
    let keys = keys_of(list, pattern);
    let order = ranking(keys);
    law_ranking_is_permutation(keys);
    assert forall|a: int, b: int| 0 <= a < b < order.len() implies {
        let first = score_of(list[(#[trigger] order[a]) as int], pattern);
        let second = score_of(list[(#[trigger] order[b]) as int], pattern);
        first > second || (first == second && order[a] < order[b])
    } by {
        law_ranking_is_stable(keys, a, b);
        let i = order[a] as int;
        let j = order[b] as int;
        assert(keys[i] == key_of(list[i], pattern));
        assert(keys[j] == key_of(list[j], pattern));
        assert(keys[i] == -score_of(list[i], pattern));
        assert(keys[j] == -score_of(list[j], pattern));
    }
    assert forall|a: int, b: int|
        0 <= a < b < list.len() && skim_score(list[(#[trigger] order[a]) as int], pattern) is None implies skim_score(
        list[(#[trigger] order[b]) as int],
        pattern,
    ) is None by {
        law_ranking_is_stable(keys, a, b);
        let i = order[a] as int;
        let j = order[b] as int;
        assert(keys[i] == key_of(list[i], pattern));
        assert(keys[j] == key_of(list[j], pattern));
    }
}

/// The order in which the candidates of a list are shown for a pattern: by
/// descending score, and among equal scores in the order of the list. A
/// candidate that the pattern does not match has the lowest score: it stays
/// in the order, after every candidate that the pattern matches.
pub fn compute_ordering(list: &[String], pattern: &str) -> (r: Vec<usize>)
    ensures
        r@ == ranking(keys_of(texts(list@), pattern@)),
        scores_in_range(texts(list@), pattern@),
        descending(texts(list@), pattern@, r@),
        pattern@.len() == 0 ==> r@ == identity(list@.len()),
{
    let mut keys: Vec<i64> = Vec::new();
    let mut i: usize = 0;
    while i < list.len()
        invariant
            i <= list@.len(),
            keys@.len() == i,
            forall|k: int| 0 <= k < i ==> keys@[k] == key_of(list@[k]@, pattern@),
            forall|k: int|
                0 <= k < i ==> (#[trigger] skim_score(list@[k]@, pattern@) matches Some(score) ==> i32::MIN
                    <= score <= i32::MAX),
            pattern@.len() == 0 ==> forall|k: int| 0 <= k < i ==> keys@[k] == 0,
        decreases list@.len() - i,
    {
        // negative sign because we want to sort descending
        let key = match fuzzy(list[i].as_str(), pattern) {
            Some(score) => -score,
            None => i64::MAX,
        };
        keys.push(key);
        i += 1;
    }
    assert(keys@ =~= keys_of(texts(list@), pattern@));
    proof {
        assert(scores_in_range(texts(list@), pattern@)) by {
            assert forall|k: int| 0 <= k < texts(list@).len() implies (#[trigger] skim_score(
                texts(list@)[k],
                pattern@,
            ) matches Some(score) ==> i32::MIN <= score <= i32::MAX) by {
                assert(texts(list@)[k] == list@[k]@);
            }
        }
        law_ranking_is_descending(texts(list@), pattern@);
        if pattern@.len() == 0 {
            lemma_ranking_of_equal_keys(keys@);
        }
    }
    rank(&keys)
}

/// What the worker of a search is told.
#[derive(Debug, PartialEq, Eq)]
pub enum SearchMessage {
    NewPattern(String),
    NewList(Vec<String>),
}

/// The mathematical value of a [`SearchMessage`].
pub enum SearchMessageView {
    NewPattern(Seq<char>),
    NewList(Seq<Seq<char>>),
}

impl View for SearchMessage {
    type V = SearchMessageView;

    open spec fn view(&self) -> SearchMessageView {
        match self {
            SearchMessage::NewPattern(pattern) => SearchMessageView::NewPattern(pattern@),
            SearchMessage::NewList(list) => SearchMessageView::NewList(texts(list@)),
        }
    }
}

/// The messages of a list, each by its value.
pub open spec fn messages_view(messages: Seq<SearchMessage>) -> Seq<SearchMessageView> {
    messages.map_values(|m: SearchMessage| m@)
}

/// Whether a list is searched. `Idle` keeps the order that the search came
/// to, while the pattern is no longer edited.
#[derive(Clone, Copy, Debug, PartialEq, Eq, Structural)]
pub enum SearchState {
    Off,
    On,
    Idle,
}

impl Default for SearchState {
    fn default() -> (r: SearchState)
        ensures
            r == SearchState::Off,
    {
        SearchState::Off
    }
}

/// What the worker of a search knows: the candidates, and the pattern in
/// ASCII.
#[derive(Debug, PartialEq, Eq)]
pub struct SearchWorker {
    pub list: Vec<String>,
    pub pattern: String,
}

/// The mathematical value of a [`SearchWorker`].
pub struct SearchWorkerView {
    pub list: Seq<Seq<char>>,
    pub pattern: Seq<char>,
}

impl View for SearchWorker {
    type V = SearchWorkerView;

    open spec fn view(&self) -> SearchWorkerView {
        SearchWorkerView { list: texts(self.list@), pattern: self.pattern@ }
    }
}

impl SearchWorkerView {
    /// The worker after a message: a new pattern is taken in its ASCII
    /// transliteration, a new list as it is.
    pub open spec fn handle(self, message: SearchMessageView) -> SearchWorkerView {
        match message {
            SearchMessageView::NewPattern(pattern) => SearchWorkerView {
                pattern: unidecode_text(pattern),
                ..self
            },
            SearchMessageView::NewList(list) => SearchWorkerView { list, ..self },
        }
    }

    /// The order that the worker publishes for what it knows.
    pub open spec fn ordering(self) -> Seq<usize> {
        ranking(keys_of(self.list, self.pattern))
    }

    /// The worker after the first `n` of some messages.
    pub open spec fn handle_all(self, messages: Seq<SearchMessageView>, n: nat) -> SearchWorkerView
        decreases n,
    {
        if n == 0 {
            self
        } else {
            self.handle_all(messages, (n - 1) as nat).handle(messages[n - 1])
        }
    }
}

/// The indices of a list in their own order.
pub open spec fn identity(n: nat) -> Seq<usize> {
    Seq::new(n, |i: int| i as usize)
}

/// The order that is shown once a worker that started with `list` and an
/// empty pattern has handled the messages: the order of the list itself as
/// long as there was no message, and then the order for the last message.
pub open spec fn published(list: Seq<Seq<char>>, messages: Seq<SearchMessageView>) -> Seq<usize> {
    if messages.len() == 0 {
        identity(list.len())
    } else {
        SearchWorkerView { list, pattern: Seq::empty() }.handle_all(messages, messages.len()).ordering()
    }
}

/// What a worker publishes is settled by what it knows: two workers that
/// know the same list and the same pattern publish the same order.
pub proof fn law_ordering_is_determined(first: SearchWorkerView, second: SearchWorkerView)
    requires
        first.list == second.list,
        first.pattern == second.pattern,
    ensures
        first.ordering() == second.ordering(),
{
}

/// The list that a worker which started with `list` knows after some
/// messages.
pub open spec fn listed(list: Seq<Seq<char>>, messages: Seq<SearchMessageView>) -> Seq<Seq<char>> {
    SearchWorkerView { list, pattern: Seq::empty() }.handle_all(messages, messages.len()).list
}

/// What is published is always a permutation of the indices of the list
/// that is searched, whatever the patterns were: it has as many entries as
/// the list, each entry is an index of the list, and no index stands twice.
pub proof fn law_published_is_permutation(list: Seq<Seq<char>>, messages: Seq<SearchMessageView>)
    requires
        listed(list, messages).len() <= usize::MAX,
    ensures
        published(list, messages).len() == listed(list, messages).len(),
        forall|j: int|
            0 <= j < published(list, messages).len() ==> (#[trigger] published(list, messages)[j])
                < listed(list, messages).len(),
        published(list, messages).no_duplicates(),
{
    if messages.len() > 0 {
        let worker = SearchWorkerView { list, pattern: Seq::empty() }.handle_all(messages, messages.len());
        law_ranking_is_permutation(keys_of(worker.list, worker.pattern));
    }
}

/// The indices `0..n` in order.
pub fn identity_order(n: usize) -> (r: Vec<usize>)
    ensures
        r@ == identity(n as nat),
{
    let mut order: Vec<usize> = Vec::new();
    let mut i: usize = 0;
    while i < n
        invariant
            i <= n,
            order@.len() == i,
            forall|k: int| 0 <= k < i ==> order@[k] == k as usize,
        decreases n - i,
    {
        order.push(i);
        i += 1;
    }
    assert(order@ =~= identity(n as nat));
    order
}

impl SearchWorker {
    /// A worker for a list, with an empty pattern.
    pub fn new(list: Vec<String>) -> (r: SearchWorker)
        ensures
            r@ == (SearchWorkerView { list: texts(list@), pattern: Seq::empty() }),
    {
        SearchWorker { list, pattern: String::new() }
    }

    /// Takes a message in and gives the order to publish for it. The order
    /// has every index of the list exactly once, and goes by descending
    /// score, ties in the order of the list.
    pub fn handle(&mut self, message: SearchMessage) -> (r: Vec<usize>)
        ensures
            final(self)@ == old(self)@.handle(message@),
            r@ == final(self)@.ordering(),
            r@.len() == final(self)@.list.len(),
            r@.no_duplicates(),
            forall|j: int| 0 <= j < r@.len() ==> (#[trigger] r@[j]) < r@.len(),
            descending(final(self)@.list, final(self)@.pattern, r@),
    {
        match message {
            SearchMessage::NewPattern(new_pattern) => {
                self.pattern = transliterate(new_pattern.as_str());
            },
            SearchMessage::NewList(new_list) => {
                self.list = new_list;
            },
        }
        let n = self.list.len();
        proof {
            assert(keys_of(self@.list, self@.pattern).len() == n);
            law_ranking_is_permutation(keys_of(self@.list, self@.pattern));
        }
        compute_ordering(self.list.as_slice(), self.pattern.as_str())
    }
}

/// What a worker that starts with `list` publishes in the end when it is
/// sent `messages` one after the other.
pub fn run(list: Vec<String>, messages: Vec<SearchMessage>) -> (r: Vec<usize>)
    ensures
        r@ == published(texts(list@), messages_view(messages@)),
{
    let mut order = identity_order(list.len());
    let ghost start = SearchWorkerView { list: texts(list@), pattern: Seq::empty() };
    let ghost all = messages_view(messages@);
    let mut worker = SearchWorker::new(list);
    let mut messages = messages;
    let mut done: usize = 0;
    let total = messages.len();
    while messages.len() > 0
        invariant
            done + messages@.len() == total,
            total == all.len(),
            messages_view(messages@) == all.skip(done as int),
            worker@ == start.handle_all(all, done as nat),
            done == 0 ==> order@ == identity(start.list.len()),
            done > 0 ==> order@ == worker@.ordering(),
        decreases messages@.len(),
    {
        let ghost rest = messages_view(messages@);
        assert(messages_view(messages@.remove(0)) =~= rest.skip(1));
        assert(rest.skip(1) =~= all.skip(done as int + 1));
        assert(rest[0] == all[done as int]);
        let message = messages.remove(0);
        order = worker.handle(message);
        done += 1;
    }
    order
}

/// A search in a list: what the worker is still to be told, the order that
/// it published last, and the pattern as typed.
#[derive(Debug, PartialEq, Eq)]
pub struct Search {
    /// The messages for the worker that were not passed on yet, oldest first;
    /// `None` where the search has no worker.
    pub tx: Option<Vec<SearchMessage>>,
    /// The order in which the list is shown.
    pub result: Vec<usize>,
    /// The pattern as typed.
    pub input: String,
    pub state: SearchState,
    /// Counts the workers that this search has had, so that what an earlier
    /// worker publishes late is told apart.
    pub session: u64,
}

impl Default for Search {
    fn default() -> (r: Search)
        ensures
            r.fresh(),
    {
        Search { tx: None, result: Vec::new(), input: String::new(), state: SearchState::Off, session: 0 }
    }
}

/// The messages that wait in a search, by their values.
pub open spec fn waiting(tx: Option<Vec<SearchMessage>>) -> Option<Seq<SearchMessageView>> {
    match tx {
        Some(messages) => Some(messages_view(messages@)),
        None => None,
    }
}

/// The number after `n`, starting over after the last.
pub open spec fn next_session(n: u64) -> u64 {
    if n == u64::MAX {
        0
    } else {
        (n + 1) as u64
    }
}

/// The index in the list of the row at place `i` of the view: the entry of
/// the order at that place, and 0 where the order has no such place.
pub open spec fn real_index(order: Seq<usize>, i: usize) -> usize {
    if i < order.len() {
        order[i as int]
    } else {
        0
    }
}

impl Search {
    /// A search that was never on: no worker, no order, no pattern.
    pub open spec fn fresh(self) -> bool {
        &&& self.tx.is_none()
        &&& self.result@.len() == 0
        &&& self.input@.len() == 0
        &&& self.state == SearchState::Off
        &&& self.session == 0
    }

    /// What `on` makes of a search: a new worker that is first told `list`,
    /// the list in its own order, an empty pattern.
    pub open spec fn started(self, list: Seq<Seq<char>>, after: Search) -> bool {
        &&& waiting(after.tx) == Some(seq![SearchMessageView::NewList(list)])
        &&& after.result@ == identity(list.len())
        &&& after.input@.len() == 0
        &&& after.state == SearchState::On
        &&& after.session == next_session(self.session)
    }

    /// What `off` makes of a search: no worker, an empty pattern, the order
    /// as it was.
    pub open spec fn ended(self, after: Search) -> bool {
        &&& after.tx.is_none()
        &&& after.input@.len() == 0
        &&& after.state == SearchState::Off
        &&& after.result == self.result
        &&& after.session == self.session
    }

    /// What `idle` makes of a search.
    pub open spec fn idled(self, after: Search) -> bool {
        &&& after.state == SearchState::Idle
        &&& after.tx == self.tx
        &&& after.result == self.result
        &&& after.input == self.input
        &&& after.session == self.session
    }

    /// What telling the worker a message makes of a search: the message
    /// waits behind the others, if there is a worker.
    pub open spec fn told(self, message: SearchMessageView, after: Search) -> bool {
        &&& waiting(after.tx) == match waiting(self.tx) {
            Some(messages) => Some(messages.push(message)),
            None => None,
        }
        &&& after.result == self.result
        &&& after.input == self.input
        &&& after.state == self.state
        &&& after.session == self.session
    }

    /// What a change of the list makes of a search that has a worker: the
    /// worker is told the new list, and until it publishes, the list is shown
    /// in its own order. A search without a worker stays as it is.
    pub open spec fn relisted(self, list: Seq<Seq<char>>, after: Search) -> bool {
        &&& waiting(after.tx) == match waiting(self.tx) {
            Some(messages) => Some(messages.push(SearchMessageView::NewList(list))),
            None => None,
        }
        &&& after.result@ == (if self.tx.is_some() {
            identity(list.len())
        } else {
            self.result@
        })
        &&& after.input == self.input
        &&& after.state == self.state
        &&& after.session == self.session
    }

    /// Starts a search in `list` with a new worker: the first thing the
    /// worker is told is the list. Until it publishes, the list is shown in
    /// its own order.
    pub fn on(&mut self, list: Vec<String>)
        ensures
            old(self).started(texts(list@), *final(self)),
    {
        // ensure that the old search worker ends
        self.off();
        assert(list@.len() == texts(list@).len());
        self.result = identity_order(list.len());
        let messages: Vec<SearchMessage> = vec![SearchMessage::NewList(list)];
        assert(messages_view(messages@) =~= seq![SearchMessageView::NewList(texts(list@))]);
        self.tx = Some(messages);
        self.state = SearchState::On;
        self.session = if self.session == u64::MAX {
            0
        } else {
            self.session + 1
        };
    }

    /// Ends the search: the worker is let go and the pattern is cleared.
    pub fn off(&mut self)
        ensures
            old(self).ended(*final(self)),
    {
        self.tx = None;
        self.input = String::new();
        self.state = SearchState::Off;
    }

    /// Stops editing the pattern and keeps the order.
    pub fn idle(&mut self)
        ensures
            old(self).idled(*final(self)),
    {
        self.state = SearchState::Idle;
    }

    /// Tells the worker, if there is one, a new pattern.
    pub fn pattern_update(&mut self, pattern: String)
        ensures
            old(self).told(SearchMessageView::NewPattern(pattern@), *final(self)),
    {
        self.tell(SearchMessage::NewPattern(pattern));
    }

    /// Tells the worker, if there is one, a new list.
    pub fn list_update(&mut self, list: Vec<String>)
        ensures
            old(self).told(SearchMessageView::NewList(texts(list@)), *final(self)),
    {
        self.tell(SearchMessage::NewList(list));
    }

    /// Takes a change of the list that is searched. The order that was
    /// published for the list before says nothing of the new list, so it
    /// is dropped at once: the new list is shown in its own order until the
    /// worker has ranked it.
    pub fn list_changed(&mut self, list: Vec<String>)
        ensures
            old(self).relisted(texts(list@), *final(self)),
    {
        if self.tx.is_some() {
            assert(list@.len() == texts(list@).len());
            self.result = identity_order(list.len());
        }
        self.list_update(list);
    }

    /// Puts a message behind those that wait for the worker.
    fn tell(&mut self, message: SearchMessage)
        ensures
            old(self).told(message@, *final(self)),
    {
        match self.tx.take() {
            Some(messages) => {
                let mut messages = messages;
                assert(messages_view(messages@.push(message)) =~= messages_view(messages@).push(message@));
                messages.push(message);
                self.tx = Some(messages);
            },
            None => {},
        }
    }

    /// Hands out the messages that wait for the worker, oldest first.
    pub fn take_messages(&mut self) -> (r: Vec<SearchMessage>)
        ensures
            messages_view(r@) == match waiting(old(self).tx) {
                Some(messages) => messages,
                None => Seq::empty(),
            },
            waiting(final(self).tx) == match old(self).tx {
                Some(_) => Some(Seq::<SearchMessageView>::empty()),
                None => None,
            },
            final(self).result == old(self).result,
            final(self).input == old(self).input,
            final(self).state == old(self).state,
            final(self).session == old(self).session,
    {
        match self.tx.take() {
            Some(messages) => {
                let empty: Vec<SearchMessage> = Vec::new();
                assert(messages_view(empty@) =~= Seq::empty());
                self.tx = Some(empty);
                messages
            },
            None => {
                let empty: Vec<SearchMessage> = Vec::new();
                assert(messages_view(empty@) =~= Seq::empty());
                empty
            },
        }
    }

    /// Takes over an order that a worker published, if it is the worker of
    /// this search; what an earlier worker publishes is dropped.
    pub fn publish(&mut self, session: u64, order: Vec<usize>)
        ensures
            final(self).result@ == (if old(self).tx.is_some() && session == old(self).session {
                order@
            } else {
                old(self).result@
            }),
            final(self).tx == old(self).tx,
            final(self).input == old(self).input,
            final(self).state == old(self).state,
            final(self).session == old(self).session,
    {
        if self.tx.is_some() && session == self.session {
            self.result = order;
        }
    }

    // translates the "view" i into the "actual" i
    pub fn real_i(&self, i: usize) -> (r: usize)
        ensures
            r == (if self.tx.is_some() {
                real_index(self.result@, i)
            } else {
                i
            }),
    {
        match &self.tx {
            Some(_) => {
                if i < self.result.len() {
                    self.result[i]
                } else {
                    0
                }
            },
            None => i,
        }
    }
}

} // verus!
