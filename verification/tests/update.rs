use amusing::app::{App, AppConfig, AppState, Screen};
use amusing::model::common::{FocusedPart, SongGroup, TagMap};
use amusing::model::connection::{MusingRequest, MusingResponse};
use amusing::event_handler::{run, CoverArt, Event, Polled, Reaction, POLL_TIMEOUT, REFRESH_TIMEOUT};
use amusing::model::keybind::{char_key, code_key, control_char_key, KeyCode, KeyEvent, KeyEventKind, Keybind};
use amusing::model::musing::{MusingSong, MusingStateDelta};
use amusing::model::search::{SearchMessage, SearchState};
use amusing::update::{
    translate_binding_common, translate_key_event, update_app, update_library, update_on_response,
    update_queue, update_state, AppUpdate, Message,
};
use amusing::model::keybind::Binding;

fn strings(list: &[&str]) -> Vec<String> {
    list.iter().map(|s| s.to_string()).collect()
}

fn app() -> App {
    let config = AppConfig { keybind: Keybind::default(), seek_step: 5, volume_step: 2, speed_step: 10 };
    App::new(config, strings(&["albumartist", "album"]))
}

fn tags(pairs: &[(&str, &str)]) -> TagMap {
    let mut map = TagMap::new();
    for (k, v) in pairs {
        map.insert(k.to_string(), v.to_string());
    }
    map
}

fn app_with_queue() -> App {
    let mut app = app();
    app.musing_state.queue = vec![
        MusingSong { id: 11, path: "a.mp3".to_string() },
        MusingSong { id: 22, path: "b.mp3".to_string() },
        MusingSong { id: 33, path: "c.mp3".to_string() },
    ];
    app.queue_state.metadata = vec![
        tags(&[("tracktitle", "alpha")]),
        tags(&[("tracktitle", "beta")]),
        tags(&[("tracktitle", "gamma")]),
    ];
    app.screen = Screen::Queue;
    app
}

fn app_with_library() -> App {
    let mut app = app();
    app.library_state.update(vec![
        (
            strings(&["A"]),
            SongGroup { metadata: vec![TagMap::new(), TagMap::new()], paths: strings(&["a1", "a2"]) },
        ),
        (strings(&["B"]), SongGroup { metadata: vec![TagMap::new()], paths: strings(&["b1"]) }),
    ]);
    app.screen = Screen::Library;
    app
}

fn press(app: &mut App, keys: &[KeyEvent]) -> Option<Message> {
    let mut last = None;
    for key in keys {
        last = translate_key_event(app, *key);
    }
    last
}

#[test]
fn app_starts_on_the_cover_screen() {
    let app = app();
    assert_eq!(app.app_state, AppState::Running);
    assert_eq!(app.screen, Screen::Cover);
    assert_eq!(app.status_msg, None);
    assert!(app.key_events.is_empty());
    assert!(app.is_wf());
    assert!(!app.is_done());
    assert_eq!(app.start(), MusingRequest::Update);
    assert_eq!(AppState::default(), AppState::Running);
    assert_eq!(Screen::default(), Screen::Cover);
}

#[test]
fn wf_needs_steps_with_opposites() {
    let mut app = app();
    app.config.seek_step = i64::MIN;
    assert!(!app.is_wf());
    app.config.seek_step = 1;
    app.config.volume_step = i8::MIN;
    assert!(!app.is_wf());
    app.config.volume_step = 1;
    app.config.speed_step = i16::MIN;
    assert!(!app.is_wf());
    app.config.speed_step = i16::MAX;
    assert!(app.is_wf());
    app.library_state.focused_part = FocusedPart::Child(0);
    assert!(!app.is_wf());
}

#[test]
fn common_bindings() {
    let mut app = app();
    let cases = [
        (Binding::Quit, Some(Message::SwitchAppState(AppState::Done))),
        (Binding::Next, Some(Message::Update(AppUpdate::Next))),
        (Binding::Previous, Some(Message::Update(AppUpdate::Previous))),
        (Binding::Pause, Some(Message::Update(AppUpdate::Pause))),
        (Binding::Resume, Some(Message::Update(AppUpdate::Resume))),
        (Binding::Toggle, Some(Message::Update(AppUpdate::Toggle))),
        (Binding::Stop, Some(Message::Update(AppUpdate::Stop))),
        (Binding::SeekForwards, Some(Message::Update(AppUpdate::Seek(5)))),
        (Binding::SeekBackwards, Some(Message::Update(AppUpdate::Seek(-5)))),
        (Binding::SpeedUp, Some(Message::Update(AppUpdate::Speed(10)))),
        (Binding::SpeedDown, Some(Message::Update(AppUpdate::Speed(-10)))),
        (Binding::VolumeUp, Some(Message::Update(AppUpdate::Volume(2)))),
        (Binding::VolumeDown, Some(Message::Update(AppUpdate::Volume(-2)))),
        (Binding::ModeSequential, Some(Message::Update(AppUpdate::ModeSequential))),
        (Binding::ModeSingle, Some(Message::Update(AppUpdate::ModeSingle))),
        (Binding::ModeRandom, Some(Message::Update(AppUpdate::ModeRandom))),
        (Binding::ModeGapless, Some(Message::Update(AppUpdate::ModeGapless))),
        (Binding::MusingUpdate, Some(Message::Update(AppUpdate::MusingUpdate))),
        (Binding::ScreenCover, Some(Message::SwitchScreen(Screen::Cover))),
        (Binding::ScreenQueue, Some(Message::SwitchScreen(Screen::Queue))),
        (Binding::ScreenLibrary, Some(Message::SwitchScreen(Screen::Library))),
        (Binding::ScrollUp, None),
        (Binding::Play, None),
        (Binding::StartSearch, None),
        (Binding::Other, None),
    ];
    for (binding, expected) in cases {
        assert_eq!(translate_binding_common(&mut app, binding), expected, "{:?}", binding);
    }
}

#[test]
fn keys_on_the_cover_screen() {
    let mut app = app();
    assert_eq!(press(&mut app, &[char_key('q')]), Some(Message::SwitchAppState(AppState::Done)));
    assert_eq!(press(&mut app, &[char_key('j')]), None);
    assert_eq!(press(&mut app, &[char_key('z')]), None);
    assert_eq!(press(&mut app, &[char_key('2')]), Some(Message::SwitchScreen(Screen::Queue)));
    assert!(app.key_events.is_empty());
}

#[test]
fn chords_are_kept_until_they_are_done() {
    let mut app = app_with_queue();
    assert_eq!(translate_key_event(&mut app, char_key('g')), None);
    assert_eq!(app.key_events, vec![char_key('g')]);
    assert_eq!(translate_key_event(&mut app, char_key('g')), Some(Message::Update(AppUpdate::ScrollTop)));
    assert!(app.key_events.is_empty());
    assert_eq!(translate_key_event(&mut app, char_key('g')), None);
    assert_eq!(translate_key_event(&mut app, char_key('x')), None);
    assert!(app.key_events.is_empty());
    assert_eq!(translate_key_event(&mut app, char_key('G')), Some(Message::Update(AppUpdate::ScrollBottom)));
}

#[test]
fn keys_on_the_queue_screen() {
    let mut app = app_with_queue();
    assert_eq!(press(&mut app, &[char_key('j')]), Some(Message::Update(AppUpdate::Scroll(1))));
    assert_eq!(press(&mut app, &[char_key('k')]), Some(Message::Update(AppUpdate::Scroll(-1))));
    assert_eq!(press(&mut app, &[control_char_key('d')]), Some(Message::Update(AppUpdate::Scroll(5))));
    assert_eq!(press(&mut app, &[control_char_key('u')]), Some(Message::Update(AppUpdate::Scroll(-5))));
    assert_eq!(press(&mut app, &[char_key('d')]), Some(Message::Update(AppUpdate::RemoveFromQueue)));
    assert_eq!(press(&mut app, &[code_key(KeyCode::Delete)]), Some(Message::Update(AppUpdate::ClearQueue)));
    assert_eq!(press(&mut app, &[code_key(KeyCode::Enter)]), Some(Message::Update(AppUpdate::Play)));
    assert_eq!(press(&mut app, &[char_key('/')]), Some(Message::Update(AppUpdate::StartSearch)));
    assert_eq!(press(&mut app, &[code_key(KeyCode::Esc)]), Some(Message::Update(AppUpdate::EndSearch)));
    assert_eq!(press(&mut app, &[char_key('a')]), None);
    assert_eq!(press(&mut app, &[char_key('h')]), None);
    assert_eq!(press(&mut app, &[char_key('p')]), Some(Message::Update(AppUpdate::Pause)));
}

#[test]
fn keys_while_a_pattern_is_typed() {
    let mut app = app_with_queue();
    update_app(&mut app, Message::Update(AppUpdate::StartSearch));
    assert_eq!(app.queue_state.search.state, SearchState::On);
    assert_eq!(press(&mut app, &[char_key('q')]), Some(Message::Update(AppUpdate::UpdateSearch)));
    assert_eq!(press(&mut app, &[char_key('z')]), Some(Message::Update(AppUpdate::UpdateSearch)));
    assert_eq!(press(&mut app, &[code_key(KeyCode::Backspace)]), Some(Message::Update(AppUpdate::UpdateSearch)));
    assert_eq!(press(&mut app, &[char_key('g')]), None);
    assert_eq!(press(&mut app, &[char_key('g')]), Some(Message::Update(AppUpdate::UpdateSearch)));
    assert_eq!(press(&mut app, &[code_key(KeyCode::Esc)]), Some(Message::Update(AppUpdate::IdleSearch)));
    update_app(&mut app, Message::Update(AppUpdate::IdleSearch));
    assert_eq!(app.queue_state.search.state, SearchState::Idle);
    assert_eq!(press(&mut app, &[code_key(KeyCode::Esc)]), Some(Message::Update(AppUpdate::EndSearch)));
    assert_eq!(press(&mut app, &[char_key('q')]), Some(Message::SwitchAppState(AppState::Done)));
}

#[test]
fn keys_on_the_library_screen() {
    let mut app = app_with_library();
    assert_eq!(press(&mut app, &[char_key('l')]), Some(Message::Update(AppUpdate::FocusRight)));
    assert_eq!(press(&mut app, &[char_key('h')]), Some(Message::Update(AppUpdate::FocusLeft)));
    assert_eq!(press(&mut app, &[char_key('a')]), Some(Message::Update(AppUpdate::AddToQueue)));
    assert_eq!(press(&mut app, &[char_key('d')]), None);
    assert_eq!(press(&mut app, &[code_key(KeyCode::Enter)]), None);
    assert_eq!(press(&mut app, &[char_key('/')]), Some(Message::Update(AppUpdate::StartSearch)));
    update_app(&mut app, Message::Update(AppUpdate::FocusRight));
    assert_eq!(app.library_state.focused_part, FocusedPart::Child(0));
    update_app(&mut app, Message::Update(AppUpdate::StartSearch));
    assert_eq!(app.library_state.children[0].search.state, SearchState::On);
    assert_eq!(app.library_state.search.state, SearchState::Off);
    assert_eq!(press(&mut app, &[char_key('l')]), Some(Message::Update(AppUpdate::UpdateSearch)));
}

#[test]
fn switches() {
    let mut app = app();
    app.status_msg = Some("old".to_string());
    assert_eq!(update_app(&mut app, Message::SwitchScreen(Screen::Library)), None);
    assert_eq!(app.screen, Screen::Library);
    assert_eq!(app.status_msg, None);
    assert_eq!(update_app(&mut app, Message::SwitchAppState(AppState::Done)), None);
    assert!(app.is_done());
}

#[test]
fn requests_of_updates() {
    let mut app = app_with_queue();
    let cases = [
        (AppUpdate::Next, Some(MusingRequest::Other("next".to_string()))),
        (AppUpdate::Previous, Some(MusingRequest::Other("previous".to_string()))),
        (AppUpdate::Pause, Some(MusingRequest::Other("pause".to_string()))),
        (AppUpdate::Resume, Some(MusingRequest::Other("resume".to_string()))),
        (AppUpdate::Toggle, Some(MusingRequest::Other("toggle".to_string()))),
        (AppUpdate::Stop, Some(MusingRequest::Other("stop".to_string()))),
        (AppUpdate::ClearQueue, Some(MusingRequest::Other("clearqueue".to_string()))),
        (AppUpdate::ModeGapless, Some(MusingRequest::Other("modegapless".to_string()))),
        (AppUpdate::ModeRandom, Some(MusingRequest::Other("moderandom".to_string()))),
        (AppUpdate::ModeSequential, Some(MusingRequest::Other("modesequential".to_string()))),
        (AppUpdate::ModeSingle, Some(MusingRequest::Other("modesingle".to_string()))),
        (AppUpdate::Seek(-5), Some(MusingRequest::Seek(-5))),
        (AppUpdate::Speed(3), Some(MusingRequest::Speed(3))),
        (AppUpdate::Volume(-1), Some(MusingRequest::Volume(-1))),
        (AppUpdate::MusingUpdate, Some(MusingRequest::Update)),
        (AppUpdate::Scroll(1), None),
        (AppUpdate::ScrollTop, None),
        (AppUpdate::FocusLeft, None),
        (AppUpdate::IdleSearch, None),
        (AppUpdate::Play, Some(MusingRequest::Play(11))),
        (AppUpdate::RemoveFromQueue, Some(MusingRequest::Remove(11))),
        (AppUpdate::AddToQueue, None),
    ];
    for (update, expected) in cases {
        assert_eq!(update_app(&mut app, Message::Update(update)), expected, "{:?}", update);
    }
    assert_eq!(AppUpdate::Next.kind_name(), Some("next"));
    assert_eq!(AppUpdate::Play.kind_name(), None);
    assert_eq!(update_library(&mut app), MusingRequest::Update);
}

#[test]
fn play_and_remove_go_by_the_selected_song() {
    let mut app = app_with_queue();
    assert_eq!(update_app(&mut app, Message::Update(AppUpdate::Play)), None);
    update_app(&mut app, Message::Update(AppUpdate::Scroll(1)));
    update_app(&mut app, Message::Update(AppUpdate::Scroll(1)));
    assert_eq!(app.queue_state.state.selected, Some(1));
    assert_eq!(update_app(&mut app, Message::Update(AppUpdate::Play)), Some(MusingRequest::Play(22)));
    update_app(&mut app, Message::Update(AppUpdate::StartSearch));
    app.queue_state.search.publish(1, vec![2, 1, 0]);
    assert_eq!(app.queue_state.state.selected, Some(0));
    assert_eq!(
        update_app(&mut app, Message::Update(AppUpdate::RemoveFromQueue)),
        Some(MusingRequest::Remove(33))
    );
    app.queue_state.search.publish(1, vec![7]);
    assert_eq!(update_app(&mut app, Message::Update(AppUpdate::Play)), None);
}

#[test]
fn add_to_queue_takes_the_selected_songs() {
    let mut app = app_with_library();
    assert_eq!(
        update_app(&mut app, Message::Update(AppUpdate::AddToQueue)),
        Some(MusingRequest::AddToQueue(strings(&["a1", "a2"])))
    );
    update_app(&mut app, Message::Update(AppUpdate::FocusRight));
    update_app(&mut app, Message::Update(AppUpdate::Scroll(1)));
    assert_eq!(
        update_app(&mut app, Message::Update(AppUpdate::AddToQueue)),
        Some(MusingRequest::AddToQueue(strings(&["a2"])))
    );
}

#[test]
fn scrolling_goes_to_the_list_that_is_shown() {
    let mut app = app_with_queue();
    update_app(&mut app, Message::Update(AppUpdate::Scroll(1)));
    assert_eq!(app.queue_state.state.selected, Some(0));
    update_app(&mut app, Message::Update(AppUpdate::Scroll(-1)));
    assert_eq!(app.queue_state.state.selected, Some(2));
    update_app(&mut app, Message::Update(AppUpdate::ScrollTop));
    assert_eq!(app.queue_state.state.selected, Some(0));
    // a step that cannot come back in is not taken
    update_app(&mut app, Message::Update(AppUpdate::Scroll(-5)));
    assert_eq!(app.queue_state.state.selected, Some(0));
    update_app(&mut app, Message::Update(AppUpdate::ScrollBottom));
    assert_eq!(app.queue_state.state.selected, Some(2));
    assert_eq!(app.library_state.state.selected, None);
    app.screen = Screen::Cover;
    update_app(&mut app, Message::Update(AppUpdate::ScrollTop));
    assert_eq!(app.queue_state.state.selected, Some(2));
    app.screen = Screen::Library;
    update_app(&mut app, Message::Update(AppUpdate::Scroll(1)));
    assert_eq!(app.library_state.state.selected, Some(0));
    assert_eq!(app.queue_state.state.selected, Some(2));
}

#[test]
fn focus_changes_only_on_the_library_screen() {
    let mut app = app_with_library();
    app.screen = Screen::Queue;
    update_app(&mut app, Message::Update(AppUpdate::FocusRight));
    assert_eq!(app.library_state.focused_part, FocusedPart::Groups);
    app.screen = Screen::Library;
    update_app(&mut app, Message::Update(AppUpdate::FocusRight));
    assert_eq!(app.library_state.focused_part, FocusedPart::Child(0));
    app.screen = Screen::Cover;
    update_app(&mut app, Message::Update(AppUpdate::FocusLeft));
    assert_eq!(app.library_state.focused_part, FocusedPart::Child(0));
}

#[test]
fn search_updates_tell_the_worker_the_pattern() {
    let mut app = app_with_queue();
    update_app(&mut app, Message::Update(AppUpdate::StartSearch));
    app.search_edited("be".to_string());
    assert_eq!(app.queue_state.search.input, "be");
    assert_eq!(
        app.queue_state.search.take_messages(),
        vec![
            SearchMessage::NewList(strings(&["alpha", "beta", "gamma"])),
            SearchMessage::NewPattern("be".to_string())
        ]
    );
    update_app(&mut app, Message::Update(AppUpdate::EndSearch));
    assert_eq!(app.queue_state.search.state, SearchState::Off);
    assert_eq!(app.queue_state.search.input, "");
    let mut app = app_with_library();
    update_app(&mut app, Message::Update(AppUpdate::StartSearch));
    app.search_edited("x".to_string());
    assert_eq!(app.library_state.search.input, "x");
    assert_eq!(app.library_state.search.tx.as_ref().map(|m| m.len()), Some(2));
}

#[test]
fn state_delta_sets_what_it_reports() {
    let mut app = app_with_queue();
    let mut delta = MusingStateDelta::default();
    delta.volume = Some(7);
    let effect = update_state(&mut app, delta);
    assert_eq!(effect.request, None);
    assert!(!effect.cover_art_changed);
    assert_eq!(app.musing_state.volume, 7);
    assert_eq!(app.musing_state.queue.len(), 3);
    let mut delta = MusingStateDelta::default();
    delta.queue = Some(vec![MusingSong { id: 1, path: "x.mp3".to_string() }]);
    delta.cover_art = Some(None);
    let effect = update_state(&mut app, delta);
    assert_eq!(effect.request, Some(MusingRequest::Metadata(strings(&["x.mp3"]), None)));
    assert!(effect.cover_art_changed);
    assert_eq!(app.musing_state.volume, 7);
    assert_eq!(update_queue(&mut app), MusingRequest::Metadata(strings(&["x.mp3"]), None));
}

#[test]
fn responses_are_taken_over() {
    let mut app = app_with_queue();
    update_app(&mut app, Message::Update(AppUpdate::StartSearch));
    app.queue_state.search.take_messages();
    let effect = update_on_response(&mut app, MusingResponse::Error("musing error: \"no\"".to_string()));
    assert_eq!(effect.request, None);
    assert_eq!(app.status_msg, Some("musing error: \"no\"".to_string()));
    let effect = update_on_response(&mut app, MusingResponse::Metadata(vec![tags(&[("artist", "Z")])]));
    assert_eq!(effect.request, None);
    assert_eq!(app.queue_state.metadata.len(), 1);
    assert_eq!(app.queue_state.search.take_messages(), vec![SearchMessage::NewList(strings(&["Z"]))]);
    let effect = update_on_response(&mut app, MusingResponse::Update("done".to_string()));
    assert_eq!(app.status_msg, Some("done".to_string()));
    assert_eq!(
        effect.request,
        Some(MusingRequest::GroupedSongs(strings(&["albumartist", "album"]), strings(&["tracknumber", "tracktitle"])))
    );
    let effect = update_on_response(
        &mut app,
        MusingResponse::GroupedSongs(vec![(strings(&["b"]), SongGroup::default()), (strings(&["a"]), SongGroup::default())]),
    );
    assert_eq!(effect.request, None);
    assert_eq!(app.library_state.children.len(), 2);
    assert_eq!(app.library_state.children[0].id_comb, strings(&["a"]));
}

#[test]
fn polling_turns() {
    assert_eq!(REFRESH_TIMEOUT, 125);
    assert_eq!(POLL_TIMEOUT, 16);
    let key = char_key('x');
    assert_eq!(run(0, 10, Some(key)), Polled { keypress: Some(key), refresh: false, last_refresh: 0 });
    assert_eq!(run(0, 124, None), Polled { keypress: None, refresh: false, last_refresh: 0 });
    assert_eq!(run(0, 125, None), Polled { keypress: None, refresh: true, last_refresh: 125 });
    assert_eq!(run(1000, 1300, Some(key)), Polled { keypress: Some(key), refresh: true, last_refresh: 1300 });
    assert_eq!(run(1000, 900, None), Polled { keypress: None, refresh: false, last_refresh: 1000 });
    let release = KeyEvent { kind: KeyEventKind::Release, ..key };
    let repeat = KeyEvent { kind: KeyEventKind::Repeat, ..key };
    assert_eq!(run(0, 10, Some(release)).keypress, None);
    assert_eq!(run(0, 10, Some(repeat)).keypress, None);
}

#[test]
fn events_are_handled_one_by_one() {
    let nothing = Reaction { request: None, edit_search: false, cover_art: CoverArt::Keep, fatal: false };
    let mut app = app_with_queue();
    assert_eq!(
        app.handle_event(Event::Refresh),
        Reaction { request: Some(MusingRequest::StateDelta), ..nothing_like(&nothing) }
    );
    assert_eq!(app.handle_event(Event::Keypress(char_key('g'))), nothing);
    assert_eq!(app.handle_event(Event::Keypress(char_key('g'))), nothing);
    assert_eq!(app.queue_state.state.selected, Some(0));
    assert_eq!(
        app.handle_event(Event::Keypress(code_key(KeyCode::Enter))),
        Reaction { request: Some(MusingRequest::Play(11)), ..nothing_like(&nothing) }
    );
    assert_eq!(app.handle_event(Event::Keypress(char_key('/'))), nothing);
    assert_eq!(
        app.handle_event(Event::Keypress(char_key('b'))),
        Reaction { edit_search: true, ..nothing_like(&nothing) }
    );
    assert_eq!(
        app.handle_event(Event::CoverArtResize(true)),
        Reaction { cover_art: CoverArt::Show, ..nothing_like(&nothing) }
    );
    assert_eq!(app.handle_event(Event::CoverArtResize(false)), Reaction { fatal: true, ..nothing_like(&nothing) });
    let mut delta = MusingStateDelta::default();
    delta.cover_art = Some(Some("QQ==".to_string()));
    delta.timer = Some((95, 240));
    assert_eq!(
        app.handle_event(Event::MusingResponse(MusingResponse::StateDelta(delta))),
        Reaction { cover_art: CoverArt::Replace, ..nothing_like(&nothing) }
    );
    assert_eq!(app.musing_state.timer, Some((95, 240)));
    app.handle_event(Event::Keypress(code_key(KeyCode::Esc)));
    app.handle_event(Event::Keypress(char_key('q')));
    assert!(app.is_done());
}

fn nothing_like(_: &Reaction) -> Reaction {
    Reaction { request: None, edit_search: false, cover_art: CoverArt::Keep, fatal: false }
}
