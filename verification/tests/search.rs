use amusing::model::search::{
    compute_ordering, identity_order, rank, run, Search, SearchMessage, SearchState, SearchWorker,
};

fn strings(list: &[&str]) -> Vec<String> {
    list.iter().map(|s| s.to_string()).collect()
}

fn is_permutation(order: &[usize]) -> bool {
    let mut seen = vec![false; order.len()];
    for &i in order {
        if i >= order.len() || seen[i] {
            return false;
        }
        seen[i] = true;
    }
    true
}

#[test]
fn rank_sorts_by_key_then_index() {
    assert_eq!(rank(&vec![]), Vec::<usize>::new());
    assert_eq!(rank(&vec![5]), vec![0]);
    assert_eq!(rank(&vec![3, 1, 2]), vec![1, 2, 0]);
    assert_eq!(rank(&vec![0, -7, 0, -7, 4]), vec![1, 3, 0, 2, 4]);
    assert_eq!(rank(&vec![i64::MAX, i64::MIN, 0]), vec![1, 2, 0]);
}

#[test]
fn rank_keeps_equal_keys_in_index_order() {
    assert_eq!(rank(&vec![1; 6]), vec![0, 1, 2, 3, 4, 5]);
    assert_eq!(rank(&vec![2, 1, 2, 1, 2, 1]), vec![1, 3, 5, 0, 2, 4]);
}

#[test]
fn rank_is_not_the_identity() {
    assert_ne!(rank(&vec![9, 8, 7]), vec![0, 1, 2]);
    assert_eq!(rank(&vec![9, 8, 7]), vec![2, 1, 0]);
}

#[test]
fn ordering_with_empty_pattern_is_the_list_order() {
    let list = strings(&["pear", "apple", "fig"]);
    assert_eq!(compute_ordering(&list, ""), vec![0, 1, 2]);
    assert_eq!(compute_ordering(&[], ""), Vec::<usize>::new());
    assert_eq!(compute_ordering(&[], "abc"), Vec::<usize>::new());
}

#[test]
fn ordering_puts_matches_first() {
    let list = strings(&["pear", "banana", "fig", "bandana"]);
    let order = compute_ordering(&list, "ban");
    assert_eq!(order.len(), 4);
    // the two candidates that hold the pattern come first, the others keep their order
    assert_eq!(&order[2..], &[0, 2]);
    assert!(order[..2] == [1, 3] || order[..2] == [3, 1]);
}

#[test]
fn ordering_ignores_case() {
    let list = strings(&["zzz", "Hello World"]);
    assert_eq!(compute_ordering(&list, "hello"), vec![1, 0]);
    assert_eq!(compute_ordering(&list, "HELLO"), vec![1, 0]);
}

#[test]
fn ordering_with_pattern_that_matches_nothing_is_the_list_order() {
    let list = strings(&["pear", "apple", "fig"]);
    assert_eq!(compute_ordering(&list, "xyzxyz"), vec![0, 1, 2]);
}

#[test]
fn ordering_is_always_a_permutation() {
    let list = strings(&["", "a", "ab", "abc", "b", "ba", "cab", "\u{e9}t\u{e9}", "A B C", "aaa"]);
    for pattern in ["", "a", "b", "ab", "abc", "zzz", "c a", "\u{e9}", "AAAA", " "] {
        let order = compute_ordering(&list, pattern);
        assert_eq!(order.len(), list.len());
        assert!(is_permutation(&order), "pattern {:?} gave {:?}", pattern, order);
    }
}

#[test]
fn ordering_is_the_same_each_time() {
    let list = strings(&["one", "two", "three", "four", "five", "onetwo", "twone"]);
    for pattern in ["", "o", "tw", "one", "e"] {
        assert_eq!(compute_ordering(&list, pattern), compute_ordering(&list, pattern));
    }
}

#[test]
fn equal_candidates_keep_their_order() {
    let list = strings(&["same", "other", "same", "same"]);
    let order = compute_ordering(&list, "same");
    assert_eq!(order, vec![0, 2, 3, 1]);
}

#[test]
fn identity_order_counts_up() {
    assert_eq!(identity_order(0), Vec::<usize>::new());
    assert_eq!(identity_order(4), vec![0, 1, 2, 3]);
}

#[test]
fn worker_takes_the_pattern_in_ascii() {
    let mut worker = SearchWorker::new(strings(&["etude", "zebra"]));
    let order = worker.handle(SearchMessage::NewPattern("\u{e9}tude".to_string()));
    assert_eq!(worker.pattern, "etude");
    assert_eq!(order, vec![0, 1]);
    let order = worker.handle(SearchMessage::NewPattern("\u{c6}bra".to_string()));
    assert_eq!(worker.pattern, "AEbra");
    assert_eq!(order.len(), 2);
    let order = worker.handle(SearchMessage::NewPattern("zeb".to_string()));
    assert_eq!(order, vec![1, 0]);
}

#[test]
fn worker_takes_a_new_list() {
    let mut worker = SearchWorker::new(strings(&["a"]));
    worker.handle(SearchMessage::NewPattern("b".to_string()));
    let order = worker.handle(SearchMessage::NewList(strings(&["a", "b", "c"])));
    assert_eq!(worker.list, strings(&["a", "b", "c"]));
    assert_eq!(worker.pattern, "b");
    assert_eq!(order, vec![1, 0, 2]);
    let order = worker.handle(SearchMessage::NewList(vec![]));
    assert_eq!(order, Vec::<usize>::new());
}

#[test]
fn run_publishes_the_order_for_the_last_message() {
    assert_eq!(run(strings(&["x", "y"]), vec![]), vec![0, 1]);
    assert_eq!(
        run(strings(&["x", "y"]), vec![SearchMessage::NewPattern("y".to_string())]),
        vec![1, 0]
    );
    assert_eq!(
        run(
            strings(&["x", "y"]),
            vec![
                SearchMessage::NewPattern("y".to_string()),
                SearchMessage::NewList(strings(&["y", "x", "yy"])),
                SearchMessage::NewPattern("x".to_string()),
            ]
        ),
        vec![1, 0, 2]
    );
}

#[test]
fn search_starts_off() {
    let search = Search::default();
    assert_eq!(search.state, SearchState::Off);
    assert_eq!(search.tx, None);
    assert_eq!(search.real_i(3), 3);
    assert_eq!(SearchState::default(), SearchState::Off);
}

#[test]
fn search_on_off_and_idle() {
    let mut search = Search::default();
    search.on(strings(&["a", "b", "c"]));
    assert_eq!(search.state, SearchState::On);
    assert_eq!(search.result, vec![0, 1, 2]);
    assert_eq!(search.tx, Some(vec![SearchMessage::NewList(strings(&["a", "b", "c"]))]));
    assert_eq!(search.session, 1);
    search.input = "ab".to_string();
    search.idle();
    assert_eq!(search.state, SearchState::Idle);
    assert_eq!(search.input, "ab");
    assert!(search.tx.is_some());
    search.off();
    assert_eq!(search.state, SearchState::Off);
    assert_eq!(search.tx, None);
    assert_eq!(search.input, "");
    assert_eq!(search.result, vec![0, 1, 2]);
    search.on(vec![]);
    assert_eq!(search.session, 2);
    assert_eq!(search.result, Vec::<usize>::new());
}

#[test]
fn search_session_starts_over_after_the_last() {
    let mut search = Search::default();
    search.session = u64::MAX;
    search.on(vec![]);
    assert_eq!(search.session, 0);
}

#[test]
fn search_messages_wait_in_order() {
    let mut search = Search::default();
    search.pattern_update("lost".to_string());
    search.list_update(strings(&["lost"]));
    assert_eq!(search.tx, None);
    assert_eq!(search.take_messages(), vec![]);
    search.on(strings(&["a"]));
    search.pattern_update("p".to_string());
    search.list_update(strings(&["b"]));
    assert_eq!(
        search.take_messages(),
        vec![
            SearchMessage::NewList(strings(&["a"])),
            SearchMessage::NewPattern("p".to_string()),
            SearchMessage::NewList(strings(&["b"])),
        ]
    );
    assert_eq!(search.tx, Some(vec![]));
    assert_eq!(search.take_messages(), vec![]);
}

#[test]
fn search_publish_takes_only_the_current_worker() {
    let mut search = Search::default();
    search.publish(0, vec![1, 0]);
    assert_eq!(search.result, Vec::<usize>::new());
    search.on(strings(&["a", "b"]));
    search.publish(0, vec![1, 0]);
    assert_eq!(search.result, vec![0, 1]);
    search.publish(1, vec![1, 0]);
    assert_eq!(search.result, vec![1, 0]);
}

#[test]
fn real_i_goes_through_the_order() {
    let mut search = Search::default();
    search.on(strings(&["a", "b", "c"]));
    search.publish(1, vec![2, 0, 1]);
    assert_eq!(search.real_i(0), 2);
    assert_eq!(search.real_i(1), 0);
    assert_eq!(search.real_i(2), 1);
    assert_eq!(search.real_i(3), 0);
    search.idle();
    assert_eq!(search.real_i(0), 2);
    search.off();
    assert_eq!(search.real_i(0), 0);
    assert_eq!(search.real_i(2), 2);
}

fn far_match() -> String {
    // `a`, a thousand other letters, then `b`: the pattern `ab` matches with a score below zero
    format!("a{}b", "x".repeat(1000))
}

#[test]
fn a_candidate_without_match_stands_after_a_poor_match() {
    let list = vec!["zzz".to_string(), far_match(), "ab".to_string()];
    assert_eq!(compute_ordering(&list, "ab"), vec![2, 1, 0]);
    let list = vec!["zzz".to_string(), far_match(), "yyy".to_string()];
    assert_eq!(compute_ordering(&list, "ab"), vec![1, 0, 2]);
}

#[test]
fn candidates_without_match_keep_their_order_after_the_matches() {
    let list = strings(&["none", "ab", "nothing", "xab", "no"]);
    let order = compute_ordering(&list, "ab");
    assert_eq!(&order[2..], &[0, 2, 4]);
    assert!(order[..2] == [1, 3] || order[..2] == [3, 1]);
}
