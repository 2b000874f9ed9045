use streamtify::codec::encode_message;
use streamtify::registry::Registry;
use streamtify::room::Room;
use streamtify::session::key_command;
use streamtify::session::SessionAction;
use streamtify::session::SessionEvent;
use streamtify::session::session_step;
use streamtify::Catalog;
use streamtify::Message;
use streamtify::PlayerCommand;
use streamtify::Track;

fn track(title: &str, artist: &str, duration_ms: u64) -> Track {
    Track { title: title.to_string(), artist: artist.to_string(), duration_ms }
}

fn catalog_ab() -> Catalog {
    Catalog::new(vec![track("A", "one", 200_000), track("B", "two", 150_000)]).unwrap()
}

#[test]
fn join_receives_exactly_one_snapshot_at_once() {
    let cat = catalog_ab();
    let mut room = Room::new("lobby".to_string(), &cat);
    room.submit(&PlayerCommand::Play, &cat);
    room.submit(&PlayerCommand::Seek(5_000), &cat);
    let snap = room.subscribe();
    assert_eq!(snap.song_title, "A");
    assert!(snap.is_playing);
    assert_eq!(snap.progress_ms, 5_000);
    assert_eq!(room.subscribers, 1);
}

#[test]
fn empty_room_tick_publishes_nothing() {
    let cat = catalog_ab();
    let mut room = Room::new("lobby".to_string(), &cat);
    room.submit(&PlayerCommand::Play, &cat);
    assert!(room.tick(&cat).is_none());
    let snap = room.subscribe();
    assert_eq!(snap.progress_ms, 1_000);
    assert!(room.tick(&cat).is_some());
    room.unsubscribe();
    assert!(room.tick(&cat).is_none());
}

#[test]
fn two_members_observe_the_same_snapshots() {
    let cat = catalog_ab();
    let mut room = Room::new("party".to_string(), &cat);
    let first = room.subscribe();
    let second = room.subscribe();
    assert_eq!(first, second);
    room.submit(&PlayerCommand::Play, &cat);
    let mut seen_by_first = Vec::new();
    let mut seen_by_second = Vec::new();
    for _ in 0..3 {
        let snap = room.tick(&cat).unwrap();
        seen_by_first.push(encode_message(&Message::StateUpdate(snap.clone())));
        seen_by_second.push(encode_message(&Message::StateUpdate(snap)));
    }
    assert_eq!(seen_by_first, seen_by_second);
    assert_eq!(seen_by_first.len(), 3);
}

#[test]
fn playback_scenario_with_boundary_crossing() {
    let cat = catalog_ab();
    let mut room = Room::new("demo".to_string(), &cat);
    let snap = room.subscribe();
    assert_eq!(snap.current_index, 0);
    assert_eq!(snap.song_title, "A");
    assert!(!snap.is_playing);
    assert_eq!(snap.progress_ms, 0);

    room.submit(&PlayerCommand::Play, &cat);
    for _ in 0..3 {
        room.tick(&cat);
    }
    assert_eq!(room.state.progress_ms, 3_000);
    assert_eq!(room.state.current_index, 0);

    room.submit(&PlayerCommand::Seek(199_500), &cat);
    let published = room.tick(&cat).unwrap();
    assert_eq!(published.progress_ms, 0);
    assert_eq!(published.current_index, 1);
    assert_eq!(published.song_title, "B");
}

#[test]
fn registry_creates_each_room_once() {
    let cat = catalog_ab();
    let mut reg = Registry::new();
    let lobby = reg.get_or_create(&"lobby".to_string(), &cat);
    let party = reg.get_or_create(&"party".to_string(), &cat);
    let lobby_again = reg.get_or_create(&"lobby".to_string(), &cat);
    assert_eq!(lobby, lobby_again);
    assert_ne!(lobby, party);
    assert_eq!(reg.rooms.len(), 2);
    assert_eq!(reg.rooms[lobby].name, "lobby");
    assert_eq!(reg.rooms[lobby].state.song_title, "A");
    assert_eq!(reg.rooms[lobby].state.total_songs, 2);
}

#[test]
fn registry_keeps_room_state_across_lookups() {
    let cat = catalog_ab();
    let mut reg = Registry::new();
    let idx = reg.get_or_create(&"lobby".to_string(), &cat);
    reg.rooms[idx].submit(&PlayerCommand::Next, &cat);
    let again = reg.get_or_create(&"lobby".to_string(), &cat);
    assert_eq!(reg.rooms[again].state.song_title, "B");
}

#[test]
fn empty_room_name_is_a_valid_room() {
    let cat = catalog_ab();
    let mut reg = Registry::new();
    let idx = reg.get_or_create(&"".to_string(), &cat);
    assert_eq!(reg.rooms[idx].name, "");
    assert_eq!(reg.rooms.len(), 1);
}

#[test]
fn session_forwards_fanout_text_verbatim() {
    let a = session_step(SessionEvent::Fanout("payload".to_string()));
    assert_eq!(a, SessionAction::Forward("payload".to_string()));
}

#[test]
fn session_applies_only_wellformed_commands() {
    let a = session_step(SessionEvent::Inbound("{\"Command\":\"Pause\"}".to_string()));
    assert_eq!(a, SessionAction::Apply(PlayerCommand::Pause));
    let b = session_step(SessionEvent::Inbound("{\"Command\":{\"Seek\":7}}".to_string()));
    assert_eq!(b, SessionAction::Apply(PlayerCommand::Seek(7)));
    let c = session_step(SessionEvent::Inbound("not json at all".to_string()));
    assert_eq!(c, SessionAction::Ignore);
}

#[test]
fn keyboard_shortcuts_map_to_commands() {
    assert_eq!(key_command("p"), Some(PlayerCommand::Play));
    assert_eq!(key_command("s"), Some(PlayerCommand::Pause));
    assert_eq!(key_command("n"), Some(PlayerCommand::Next));
    assert_eq!(key_command("b"), Some(PlayerCommand::Prev));
    assert_eq!(key_command("r"), Some(PlayerCommand::Restart));
    assert_eq!(key_command("q"), None);
    assert_eq!(key_command(""), None);
}

#[test]
fn session_stops_on_close_and_on_failure() {
    assert_eq!(session_step(SessionEvent::ClosedByPeer), SessionAction::Stop);
    assert_eq!(session_step(SessionEvent::TransportFailed), SessionAction::Stop);
}
