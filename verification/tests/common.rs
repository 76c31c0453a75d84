use amusing::model::common::{scroll_allowed, scroll_table, FocusedPart, Scroll, SongGroup, TableState, TagMap};
use amusing::order::texts_less;
use amusing::model::playlists::PlaylistsChildState;
use amusing::model::queue::QueueState;
use amusing::text::copy_texts;

fn strings(list: &[&str]) -> Vec<String> {
    list.iter().map(|s| s.to_string()).collect()
}

fn values(list: &[Option<&str>]) -> Vec<Option<String>> {
    list.iter().map(|s| s.map(|s| s.to_string())).collect()
}

fn selected(start: Option<usize>, rows: usize, delta: i32) -> Option<usize> {
    let mut state = TableState { selected: start };
    assert!(scroll_allowed(&state, rows, delta));
    scroll_table(&mut state, rows, delta);
    state.selected
}

#[test]
fn tag_map_insert_and_get() {
    let mut map = TagMap::new();
    assert_eq!(map.len(), 0);
    assert_eq!(map.get("artist"), None);
    map.insert("artist".to_string(), "A".to_string());
    map.insert("album".to_string(), "B".to_string());
    assert_eq!(map.len(), 2);
    assert_eq!(map.get("artist"), Some(&"A".to_string()));
    assert_eq!(map.get("album"), Some(&"B".to_string()));
    map.insert("artist".to_string(), "C".to_string());
    assert_eq!(map.len(), 2);
    assert_eq!(map.get("artist"), Some(&"C".to_string()));
    assert_eq!(map.get("Artist"), None);
}

#[test]
fn pair_values_pairs_by_position() {
    let keys = strings(&["tracknumber", "tracktitle", "artist"]);
    let rows = vec![
        values(&[Some("1"), Some("One"), Some("A")]),
        values(&[Some("2"), None, Some("B")]),
        values(&[Some("3")]),
        values(&[]),
        values(&[Some("4"), Some("Four"), Some("D"), Some("extra")]),
    ];
    let maps = SongGroup::pair_values(&keys, &rows);
    assert_eq!(maps.len(), 5);
    assert_eq!(maps[0].len(), 3);
    assert_eq!(maps[0].get("tracktitle"), Some(&"One".to_string()));
    assert_eq!(maps[1].len(), 2);
    assert_eq!(maps[1].get("tracktitle"), None);
    assert_eq!(maps[1].get("artist"), Some(&"B".to_string()));
    assert_eq!(maps[2].len(), 1);
    assert_eq!(maps[3].len(), 0);
    assert_eq!(maps[4].len(), 3);
    assert_eq!(maps[4].get("artist"), Some(&"D".to_string()));
}

#[test]
fn pair_values_takes_the_later_of_two_equal_keys() {
    let keys = strings(&["a", "a"]);
    let maps = SongGroup::pair_values(&keys, &[values(&[Some("1"), Some("2")])]);
    assert_eq!(maps[0].len(), 1);
    assert_eq!(maps[0].get("a"), Some(&"2".to_string()));
    let maps = SongGroup::pair_values(&keys, &[values(&[Some("1"), None])]);
    assert_eq!(maps[0].get("a"), Some(&"1".to_string()));
}

#[test]
fn song_group_new_and_add_songs() {
    let keys = strings(&["tracktitle"]);
    let mut group = SongGroup::new(&keys, &[values(&[Some("One")])], &strings(&["1.mp3"]));
    assert_eq!(group.paths, strings(&["1.mp3"]));
    assert_eq!(group.metadata.len(), 1);
    group.add_songs(&keys, &[values(&[Some("Two")]), values(&[None])], &strings(&["2.mp3", "3.mp3"]));
    assert_eq!(group.paths, strings(&["1.mp3", "2.mp3", "3.mp3"]));
    assert_eq!(group.metadata.len(), 3);
    assert_eq!(group.metadata[0].get("tracktitle"), Some(&"One".to_string()));
    assert_eq!(group.metadata[1].get("tracktitle"), Some(&"Two".to_string()));
    assert_eq!(group.metadata[2].get("tracktitle"), None);
    group.add_songs(&keys, &[], &[]);
    assert_eq!(group.paths.len(), 3);
    assert_eq!(SongGroup::default(), SongGroup { metadata: vec![], paths: vec![] });
}

#[test]
fn table_state_moves() {
    let mut state = TableState::default();
    assert_eq!(state.selected(), None);
    state.select_first();
    assert_eq!(state.selected(), Some(0));
    state.scroll_down_by(4);
    assert_eq!(state.selected(), Some(4));
    state.scroll_up_by(3);
    assert_eq!(state.selected(), Some(1));
    state.scroll_up_by(3);
    assert_eq!(state.selected(), Some(0));
    state.select(Some(usize::MAX - 1));
    state.scroll_down_by(5);
    assert_eq!(state.selected(), Some(usize::MAX));
    state.select(None);
    state.scroll_down_by(2);
    assert_eq!(state.selected(), Some(2));
    state.select(None);
    state.scroll_up_by(2);
    assert_eq!(state.selected(), Some(0));
}

#[test]
fn table_state_after_showing() {
    let mut state = TableState { selected: Some(7) };
    state.show(10);
    assert_eq!(state.selected, Some(7));
    state.show(5);
    assert_eq!(state.selected, Some(4));
    state.show(0);
    assert_eq!(state.selected, None);
    state.show(3);
    assert_eq!(state.selected, None);
}

#[test]
fn scroll_inside_the_table() {
    assert_eq!(selected(None, 10, 1), Some(0));
    assert_eq!(selected(None, 0, -5), Some(0));
    assert_eq!(selected(Some(3), 10, 1), Some(4));
    assert_eq!(selected(Some(3), 10, -1), Some(2));
    assert_eq!(selected(Some(3), 10, 5), Some(8));
    assert_eq!(selected(Some(5), 10, -5), Some(0));
    assert_eq!(selected(Some(3), 10, 0), Some(3));
}

#[test]
fn scroll_comes_back_in_at_the_other_end() {
    assert_eq!(selected(Some(0), 10, -1), Some(9));
    assert_eq!(selected(Some(2), 10, -5), Some(7));
    assert_eq!(selected(Some(9), 10, 1), Some(0));
    assert_eq!(selected(Some(8), 10, 5), Some(3));
    assert_eq!(selected(Some(0), 1, -1), Some(0));
    assert_eq!(selected(Some(0), 5, -5), Some(0));
}

#[test]
fn scroll_counts_long_steps_modulo_65536() {
    assert_eq!(selected(Some(100_000), 1_000_000, -65_537), Some(99_999));
    assert_eq!(selected(Some(100_000), 1_000_000, 65_536), Some(100_000));
    assert_eq!(selected(Some(0), 3_000_000_000, i32::MAX), Some((i32::MAX as usize) % 65_536));
}

#[test]
fn scroll_is_refused_where_it_cannot_come_back_in() {
    assert!(!scroll_allowed(&TableState { selected: Some(0) }, 1, -5));
    assert!(!scroll_allowed(&TableState { selected: Some(0) }, 0, -1));
    assert!(!scroll_allowed(&TableState { selected: Some(7) }, 3, 1));
    assert!(!scroll_allowed(&TableState { selected: Some(usize::MAX) }, usize::MAX, 1));
    assert!(scroll_allowed(&TableState { selected: Some(3) }, 3, 1));
    assert!(scroll_allowed(&TableState { selected: None }, 0, i32::MIN));
    assert!(scroll_allowed(&TableState { selected: Some(0) }, 0, 0));
    assert_eq!(selected(Some(3), 3, 1), Some(1));
}

#[test]
fn queue_scrolls_over_its_rows() {
    let mut queue = QueueState::default();
    queue.metadata = vec![TagMap::new(), TagMap::new(), TagMap::new()];
    queue.scroll(1);
    assert_eq!(queue.state.selected, Some(0));
    queue.scroll(1);
    assert_eq!(queue.state.selected, Some(1));
    queue.scroll(-2);
    assert_eq!(queue.state.selected, Some(2));
    queue.scroll_to_bottom();
    assert_eq!(queue.state.selected, Some(2));
    queue.scroll_to_top();
    assert_eq!(queue.state.selected, Some(0));
    queue.metadata = vec![];
    queue.scroll_to_bottom();
    assert_eq!(queue.state.selected, Some(0));
}

#[test]
fn focused_part_starts_with_the_groups() {
    assert_eq!(FocusedPart::default(), FocusedPart::Groups);
}

#[test]
fn playlists_child_starts_empty() {
    let child = PlaylistsChildState::default();
    assert_eq!(child.name, "");
    assert_eq!(child.state.selected, None);
    assert_eq!(child.group, SongGroup::default());
}

#[test]
fn copy_texts_copies() {
    assert_eq!(copy_texts(&strings(&["a", "b"])), strings(&["a", "b"]));
    assert_eq!(copy_texts(&[]), Vec::<String>::new());
}

#[test]
fn texts_less_is_lexicographic() {
    assert!(texts_less(&strings(&["a"]), &strings(&["b"])));
    assert!(!texts_less(&strings(&["b"]), &strings(&["a"])));
    assert!(!texts_less(&strings(&["a"]), &strings(&["a"])));
    assert!(texts_less(&strings(&["a"]), &strings(&["a", "a"])));
    assert!(!texts_less(&strings(&["a", "a"]), &strings(&["a"])));
    assert!(texts_less(&strings(&[]), &strings(&[""])));
    assert!(!texts_less(&strings(&[]), &strings(&[])));
    assert!(texts_less(&strings(&["a", "b"]), &strings(&["a", "c"])));
    assert!(texts_less(&strings(&["ab"]), &strings(&["b"])));
    assert!(texts_less(&strings(&["Z"]), &strings(&["a"])));
    assert!(texts_less(&strings(&["z"]), &strings(&["\u{e9}"])));
    assert!(texts_less(&strings(&["\u{e9}"]), &strings(&["\u{4e2d}"])));
    assert!(texts_less(&strings(&["\u{ffff}"]), &strings(&["\u{10000}"])));
    assert!(texts_less(&strings(&[""]), &strings(&["a"])));
}
