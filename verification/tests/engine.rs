use streamtify::engine::apply_command;
use streamtify::engine::initial_state;
use streamtify::engine::tick;
use streamtify::Catalog;
use streamtify::PlayerCommand;
use streamtify::Track;

fn track(title: &str, artist: &str, duration_ms: u64) -> Track {
    Track { title: title.to_string(), artist: artist.to_string(), duration_ms }
}

fn catalog5() -> Catalog {
    Catalog::new(vec![
        track("Shape of You", "Ed Sheeran", 233_000),
        track("Blinding Lights", "The Weeknd", 200_000),
        track("Levitating", "Dua Lipa", 203_000),
        track("Stay", "Justin Bieber", 141_000),
        track("Bohemian Rhapsody", "Queen", 354_000),
    ])
    .unwrap()
}

#[test]
fn empty_catalog_is_refused() {
    assert!(Catalog::new(vec![]).is_none());
    assert!(Catalog::new(vec![track("A", "a", 1)]).is_some());
}

#[test]
fn initial_state_mirrors_first_track() {
    let cat = catalog5();
    let s = initial_state(&cat);
    assert_eq!(s.song_title, "Shape of You");
    assert_eq!(s.artist, "Ed Sheeran");
    assert!(!s.is_playing);
    assert_eq!(s.progress_ms, 0);
    assert_eq!(s.duration_ms, 233_000);
    assert_eq!(s.current_index, 0);
    assert_eq!(s.total_songs, 5);
}

#[test]
fn next_round_trip_restores_index() {
    let cat = catalog5();
    let mut s = initial_state(&cat);
    apply_command(&mut s, &PlayerCommand::Next, &cat);
    apply_command(&mut s, &PlayerCommand::Next, &cat);
    assert_eq!(s.current_index, 2);
    for _ in 0..5 {
        apply_command(&mut s, &PlayerCommand::Next, &cat);
    }
    assert_eq!(s.current_index, 2);
}

#[test]
fn prev_round_trip_restores_index() {
    let cat = catalog5();
    let mut s = initial_state(&cat);
    apply_command(&mut s, &PlayerCommand::Next, &cat);
    assert_eq!(s.current_index, 1);
    for _ in 0..5 {
        apply_command(&mut s, &PlayerCommand::Prev, &cat);
    }
    assert_eq!(s.current_index, 1);
}

#[test]
fn prev_wraps_to_last_track() {
    let cat = catalog5();
    let mut s = initial_state(&cat);
    apply_command(&mut s, &PlayerCommand::Prev, &cat);
    assert_eq!(s.current_index, 4);
    assert_eq!(s.song_title, "Bohemian Rhapsody");
    assert_eq!(s.duration_ms, 354_000);
    assert_eq!(s.progress_ms, 0);
}

#[test]
fn prev_then_next_restores_track_fields() {
    let cat = catalog5();
    let mut s = initial_state(&cat);
    apply_command(&mut s, &PlayerCommand::Seek(42_000), &cat);
    apply_command(&mut s, &PlayerCommand::Prev, &cat);
    apply_command(&mut s, &PlayerCommand::Next, &cat);
    assert_eq!(s.current_index, 0);
    assert_eq!(s.song_title, "Shape of You");
    assert_eq!(s.artist, "Ed Sheeran");
    assert_eq!(s.duration_ms, 233_000);
    assert_eq!(s.progress_ms, 0);
}

#[test]
fn restart_resets_clock_and_keeps_flag() {
    let cat = catalog5();
    let mut s = initial_state(&cat);
    apply_command(&mut s, &PlayerCommand::Play, &cat);
    apply_command(&mut s, &PlayerCommand::Seek(10_000), &cat);
    apply_command(&mut s, &PlayerCommand::Restart, &cat);
    assert_eq!(s.progress_ms, 0);
    assert!(s.is_playing);
    apply_command(&mut s, &PlayerCommand::Pause, &cat);
    apply_command(&mut s, &PlayerCommand::Restart, &cat);
    assert!(!s.is_playing);
}

#[test]
fn pause_is_idempotent() {
    let cat = catalog5();
    let mut once = initial_state(&cat);
    apply_command(&mut once, &PlayerCommand::Play, &cat);
    let mut twice = once.clone();
    apply_command(&mut once, &PlayerCommand::Pause, &cat);
    apply_command(&mut twice, &PlayerCommand::Pause, &cat);
    apply_command(&mut twice, &PlayerCommand::Pause, &cat);
    assert_eq!(once, twice);
}

#[test]
fn tick_advances_only_while_playing() {
    let cat = catalog5();
    let mut s = initial_state(&cat);
    tick(&mut s, &cat);
    assert_eq!(s.progress_ms, 0);
    apply_command(&mut s, &PlayerCommand::Play, &cat);
    tick(&mut s, &cat);
    tick(&mut s, &cat);
    assert_eq!(s.progress_ms, 2000);
    assert_eq!(s.current_index, 0);
}

#[test]
fn tick_auto_advance_resets_clock_exactly() {
    let cat = catalog5();
    let mut s = initial_state(&cat);
    apply_command(&mut s, &PlayerCommand::Play, &cat);
    apply_command(&mut s, &PlayerCommand::Seek(233_000 - 500), &cat);
    tick(&mut s, &cat);
    assert_eq!(s.current_index, 1);
    assert_eq!(s.song_title, "Blinding Lights");
    assert_eq!(s.progress_ms, 0);
    assert!(s.is_playing);
}

#[test]
fn seek_past_end_resolves_on_next_tick() {
    let cat = catalog5();
    let mut s = initial_state(&cat);
    apply_command(&mut s, &PlayerCommand::Play, &cat);
    apply_command(&mut s, &PlayerCommand::Seek(u64::MAX), &cat);
    assert_eq!(s.progress_ms, u64::MAX);
    tick(&mut s, &cat);
    assert_eq!(s.current_index, 1);
    assert_eq!(s.progress_ms, 0);
}

#[test]
fn auto_advance_wraps_at_catalog_end() {
    let cat = Catalog::new(vec![track("Only", "One", 1000)]).unwrap();
    let mut s = initial_state(&cat);
    apply_command(&mut s, &PlayerCommand::Play, &cat);
    tick(&mut s, &cat);
    assert_eq!(s.current_index, 0);
    assert_eq!(s.progress_ms, 0);
    assert_eq!(s.song_title, "Only");
}
