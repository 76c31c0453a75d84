use amusing::model::common::{FocusedPart, Scroll, SongGroup, TableState, TagMap};
use amusing::model::library::{LibraryChildState, LibraryState};
use amusing::model::queue::{ordered_rows, row_repr, QueueState};
use amusing::model::search::{Search, SearchMessage, SearchState};

fn strings(list: &[&str]) -> Vec<String> {
    list.iter().map(|s| s.to_string()).collect()
}

fn tags(pairs: &[(&str, &str)]) -> TagMap {
    let mut map = TagMap::new();
    for (k, v) in pairs {
        map.insert(k.to_string(), v.to_string());
    }
    map
}

fn group(titles: &[&str]) -> SongGroup {
    SongGroup {
        metadata: titles.iter().map(|t| tags(&[("tracktitle", t)])).collect(),
        paths: titles.iter().map(|t| format!("{}.mp3", t)).collect(),
    }
}

fn library() -> LibraryState {
    let mut library = LibraryState::default();
    library.update(vec![
        (strings(&["B", "Two"]), group(&["b1", "b2"])),
        (strings(&["A", "One"]), group(&["a1"])),
        (strings(&["B", "One"]), group(&["c1", "c2", "c3"])),
    ]);
    library
}

#[test]
fn queue_defaults() {
    let queue = QueueState::default();
    assert_eq!(queue.displayed_tags, strings(&["tracktitle", "artist", "album"]));
    assert_eq!(queue.metadata.len(), 0);
    assert_eq!(queue.state.selected, None);
    assert_eq!(queue.unordered_selected(), None);
}

#[test]
fn row_repr_joins_the_tags_in_ascii() {
    let row = tags(&[("album", "Alb\u{fc}m"), ("tracktitle", "\u{c9}tude"), ("year", "1999")]);
    assert_eq!(row_repr(&row, &strings(&["tracktitle", "artist", "album"])), "EtudeAlbum");
    assert_eq!(row_repr(&row, &strings(&[])), "");
    assert_eq!(row_repr(&TagMap::new(), &strings(&["tracktitle"])), "");
}

#[test]
fn queue_search_on_starts_from_the_top() {
    let mut queue = QueueState::default();
    queue.metadata = vec![tags(&[("tracktitle", "b"), ("artist", "x")]), tags(&[("album", "a")])];
    queue.state.select(Some(1));
    assert_eq!(queue.metadata_to_repr(), strings(&["bx", "a"]));
    queue.search_on();
    assert_eq!(queue.state.selected, Some(0));
    assert_eq!(queue.search.state, SearchState::On);
    assert_eq!(queue.search.result, vec![0, 1]);
    assert_eq!(queue.search.tx, Some(vec![SearchMessage::NewList(strings(&["bx", "a"]))]));
}

#[test]
fn queue_selection_goes_through_the_order() {
    let mut queue = QueueState::default();
    queue.metadata = vec![tags(&[("tracktitle", "a")]), tags(&[("tracktitle", "b")])];
    queue.state.select(Some(0));
    assert_eq!(queue.unordered_selected(), Some(0));
    queue.search_on();
    queue.search.publish(1, vec![1, 0]);
    assert_eq!(queue.unordered_selected(), Some(1));
    let ordered = queue.ordered_metadata();
    assert_eq!(ordered.len(), 2);
    assert_eq!(ordered[0].get("tracktitle"), Some(&"b".to_string()));
    assert_eq!(ordered[1].get("tracktitle"), Some(&"a".to_string()));
    queue.search.off();
    let ordered = queue.ordered_metadata();
    assert_eq!(ordered[0].get("tracktitle"), Some(&"a".to_string()));
}

#[test]
fn ordered_rows_leaves_out_what_is_no_row() {
    let mut search = Search::default();
    assert_eq!(ordered_rows(&search, 3), vec![0, 1, 2]);
    search.on(strings(&["a", "b", "c"]));
    search.publish(1, vec![2, 7, 0, 1, 3]);
    assert_eq!(ordered_rows(&search, 3), vec![2, 0, 1]);
    assert_eq!(ordered_rows(&search, 1), vec![0]);
    search.idle();
    assert_eq!(ordered_rows(&search, 3), vec![2, 0, 1]);
    search.off();
    assert_eq!(ordered_rows(&search, 2), vec![0, 1]);
}

#[test]
fn library_defaults() {
    let library = LibraryState::default();
    assert_eq!(library.group_by_tags, strings(&["albumartist", "album"]));
    assert_eq!(library.children_tags, strings(&["tracknumber", "tracktitle"]));
    assert_eq!(library.focused_part, FocusedPart::Groups);
    assert!(library.is_steady());
    assert_eq!(library.selected_child(), None);
    assert_eq!(library.selected_songs(), None);
    let library = LibraryState::new(strings(&["genre"]));
    assert_eq!(library.group_by_tags, strings(&["genre"]));
}

#[test]
fn library_update_sorts_the_groups() {
    let library = library();
    let names: Vec<_> = library.children.iter().map(|c| c.id_comb.clone()).collect();
    assert_eq!(names, vec![strings(&["A", "One"]), strings(&["B", "One"]), strings(&["B", "Two"])]);
    assert_eq!(library.children[1].group, group(&["c1", "c2", "c3"]));
    assert_eq!(library.state.selected, Some(0));
    assert_eq!(library.focused_part, FocusedPart::Groups);
    for child in &library.children {
        assert_eq!(child.state.selected, None);
        assert_eq!(child.search, Search::default());
    }
}

#[test]
fn library_update_keeps_the_selection_in_range() {
    let mut library = library();
    library.state.select(Some(2));
    library.update(vec![(strings(&["x"]), group(&[])), (strings(&["y"]), group(&[]))]);
    assert_eq!(library.state.selected, Some(1));
    library.state.select(Some(0));
    library.update(vec![(strings(&["x"]), group(&[])), (strings(&["y"]), group(&[]))]);
    assert_eq!(library.state.selected, Some(0));
    library.update(vec![]);
    assert_eq!(library.state.selected, None);
    assert_eq!(library.children.len(), 0);
}

#[test]
fn library_texts_for_searching() {
    let library = library();
    assert_eq!(library.children_to_repr(), strings(&["AOne", "BOne", "BTwo"]));
    assert_eq!(library.children[1].songs_to_repr(), strings(&["c1", "c2", "c3"]));
    let child = LibraryChildState {
        state: TableState::default(),
        id_comb: strings(&["\u{c6}", "\u{e9}"]),
        group: SongGroup { metadata: vec![tags(&[("artist", "x")]), tags(&[("tracktitle", "\u{fc}")])], paths: vec![] },
        search: Search::default(),
    };
    assert_eq!(child.songs_to_repr(), strings(&["", "u"]));
}

#[test]
fn library_focus_goes_right_and_left() {
    let mut library = library();
    library.state.select(Some(1));
    library.focus_right();
    assert_eq!(library.focused_part, FocusedPart::Child(1));
    assert_eq!(library.children[1].state.selected, Some(0));
    assert_eq!(library.selected_songs(), Some(&strings(&["c1.mp3"])[..]));
    library.scroll(1);
    assert_eq!(library.children[1].state.selected, Some(1));
    assert_eq!(library.selected_songs(), Some(&strings(&["c2.mp3"])[..]));
    library.scroll_to_bottom();
    assert_eq!(library.children[1].state.selected, Some(2));
    library.scroll(1);
    assert_eq!(library.children[1].state.selected, Some(0));
    library.scroll_to_top();
    assert_eq!(library.children[1].state.selected, Some(0));
    library.focus_left();
    assert_eq!(library.focused_part, FocusedPart::Groups);
    assert_eq!(library.children[1].state.selected, None);
    assert_eq!(library.state.selected, Some(1));
    assert_eq!(library.selected_songs(), Some(&strings(&["c1.mp3", "c2.mp3", "c3.mp3"])[..]));
}

#[test]
fn library_focus_right_needs_a_selected_group() {
    let mut library = LibraryState::default();
    library.focus_right();
    assert_eq!(library.focused_part, FocusedPart::Groups);
    library.state.select(Some(0));
    library.focus_right();
    assert_eq!(library.focused_part, FocusedPart::Groups);
    assert_eq!(library.selected_child(), None);
}

#[test]
fn library_scroll_among_groups_ends_the_search_of_the_group() {
    let mut library = library();
    library.children[0].search_on();
    assert_eq!(library.children[0].search.state, SearchState::On);
    assert_eq!(library.children[0].state.selected, Some(0));
    library.children[1].search_on();
    library.scroll(1);
    assert_eq!(library.state.selected, Some(1));
    assert_eq!(library.children[0].search.state, SearchState::Off);
    assert_eq!(library.children[0].search.tx, None);
    assert_eq!(library.children[1].search.state, SearchState::On);
    library.scroll_to_bottom();
    assert_eq!(library.state.selected, Some(2));
    library.scroll_to_top();
    assert_eq!(library.state.selected, Some(0));
}

#[test]
fn library_search_goes_through_the_order() {
    let mut library = library();
    library.state.select(Some(2));
    library.search_on();
    assert_eq!(library.state.selected, Some(0));
    assert_eq!(library.search.tx, Some(vec![SearchMessage::NewList(strings(&["AOne", "BOne", "BTwo"]))]));
    library.search.publish(1, vec![2, 0, 1]);
    assert_eq!(library.unordered_selected(), Some(2));
    assert_eq!(library.selected_position(), Some(2));
    assert_eq!(library.selected_child().map(|c| c.id_comb.clone()), Some(strings(&["B", "Two"])));
    let ordered: Vec<_> = library.ordered_children().iter().map(|c| c.id_comb[1].clone()).collect();
    assert_eq!(ordered, strings(&["Two", "One", "One"]));
    library.focus_right();
    assert_eq!(library.focused_part, FocusedPart::Child(2));
    library.search.publish(1, vec![9, 9, 9]);
    assert_eq!(library.selected_child(), None);
    assert_eq!(library.ordered_children().len(), 0);
}

#[test]
fn child_shows_its_songs_in_order() {
    let mut library = library();
    let child = &mut library.children[1];
    let ordered = child.ordered_group();
    assert_eq!(ordered.len(), 3);
    assert_eq!(ordered[0].1, "c1.mp3");
    child.search_on();
    child.search.publish(1, vec![2, 1, 0]);
    child.state.select(Some(0));
    assert_eq!(child.unordered_selected(), Some(2));
    let ordered = child.ordered_group();
    assert_eq!(ordered[0].1, "c3.mp3");
    assert_eq!(ordered[0].0.get("tracktitle"), Some(&"c3".to_string()));
    assert_eq!(ordered[2].1, "c1.mp3");
}

#[test]
fn selected_child_can_be_changed() {
    let mut library = library();
    assert!(library.selected_child_mut().is_some());
    library.state.select(Some(1));
    if let Some(child) = library.selected_child_mut() {
        child.state.select(Some(2));
    }
    assert_eq!(library.children[1].state.selected, Some(2));
    assert_eq!(library.children[0].state.selected, None);
    library.state.select(Some(9));
    assert!(library.selected_child_mut().is_none());
}

#[test]
fn a_changed_list_is_shown_in_its_own_order_at_once() {
    let mut search = Search::default();
    search.list_changed(strings(&["a", "b"]));
    assert_eq!(search, Search::default());
    search.on(strings(&["a", "b", "c"]));
    search.publish(1, vec![2, 1, 0]);
    search.take_messages();
    search.list_changed(strings(&["x", "y"]));
    assert_eq!(search.result, vec![0, 1]);
    assert_eq!(search.take_messages(), vec![SearchMessage::NewList(strings(&["x", "y"]))]);
    assert_eq!(search.state, SearchState::On);
}

#[test]
fn library_update_goes_on_with_the_search_in_the_groups() {
    let mut library = library();
    library.search_on();
    library.search.publish(1, vec![2, 1, 0]);
    library.search.take_messages();
    library.update(vec![(strings(&["Z"]), group(&[])), (strings(&["Y"]), group(&[]))]);
    assert_eq!(library.search.result, vec![0, 1]);
    assert_eq!(library.search.take_messages(), vec![SearchMessage::NewList(strings(&["Y", "Z"]))]);
}
