use attention::player::{PlayState, Player, MAX_VOLUME};
use attention::track::{TagInfo, Track};

fn track(name: &str, duration: u64) -> Track {
    Track::new(
        format!("/music/{name}").into_bytes(),
        format!("/music/{name}"),
        Some(name.to_string()),
        Some(TagInfo { title: Some(name.to_string()), artist: None }),
        duration,
        None,
    )
}

#[test]
fn new_player_is_idle_and_empty() {
    let p = Player::new(true);
    assert_eq!(p.queue.len(), 0);
    assert_eq!(p.queue_index, 0);
    assert_eq!(p.playhead, 0);
    assert_eq!(p.volume, MAX_VOLUME);
    assert_eq!(p.state, PlayState::Idle);
    assert!(p.presence_enabled);
    assert!(!p.playing());
}

#[test]
fn play_track_valid_index_moves_there() {
    let mut p = Player::new(false);
    p.load_library_into_queue(vec![
        Some(track("a.flac", 180)),
        Some(track("b.flac", 200)),
        Some(track("c.flac", 150)),
    ]);
    let req = p.play_track(1).expect("index 1 is in range");
    assert_eq!(req.index, 1);
    assert_eq!(req.path, b"/music/b.flac".to_vec());
    // nothing moved yet: the shell has not reported the decode
    assert_eq!(p.queue_index, 0);
    let presence = p.track_loaded(1);
    assert!(presence.is_none());
    assert_eq!(p.queue_index, 1);
    assert_eq!(p.state, PlayState::Playing);
    assert_eq!(p.playhead, 0);
    let t = p.track().expect("queue is non-empty");
    assert_eq!(t, &p.queue[1]);
    assert_eq!(t.title, "b.flac");
}

#[test]
fn play_track_out_of_range_changes_nothing() {
    let mut p = Player::new(false);
    p.load_library_into_queue(vec![Some(track("a.flac", 180)), Some(track("b.flac", 200))]);
    p.track_loaded(1);
    let before_index = p.queue_index;
    let before_state = p.state;
    let before_playhead = p.playhead;
    assert!(p.play_track(2).is_none());
    assert!(p.play_track(17).is_none());
    assert_eq!(p.queue_index, before_index);
    assert_eq!(p.state, before_state);
    assert_eq!(p.playhead, before_playhead);
}

#[test]
fn can_prev_and_can_next_follow_the_index() {
    let mut p = Player::new(false);
    p.load_library_into_queue(vec![
        Some(track("a.flac", 1)),
        Some(track("b.flac", 2)),
        Some(track("c.flac", 3)),
    ]);
    assert!(!p.can_prev());
    assert!(p.can_next());
    p.track_loaded(1);
    assert!(p.can_prev());
    assert!(p.can_next());
    p.track_loaded(2);
    assert!(p.can_prev());
    assert!(!p.can_next());
}

#[test]
fn next_and_prev_step_by_one() {
    let mut p = Player::new(false);
    p.load_library_into_queue(vec![
        Some(track("a.flac", 1)),
        Some(track("b.flac", 2)),
        Some(track("c.flac", 3)),
    ]);
    p.track_loaded(1);
    let req = p.next().expect("a following track exists");
    assert_eq!(req.index, 2);
    assert_eq!(req.path, b"/music/c.flac".to_vec());
    let req = p.prev().expect("a preceding track exists");
    assert_eq!(req.index, 0);
    assert_eq!(req.path, b"/music/a.flac".to_vec());
    // still at 1: neither call was confirmed
    assert_eq!(p.queue_index, 1);
    p.track_loaded(2);
    assert!(p.next().is_none());
}

#[test]
fn pause_twice_is_pause_once() {
    let mut p = Player::new(false);
    p.load_library_into_queue(vec![Some(track("a.flac", 9))]);
    p.track_loaded(0);
    assert!(p.playing());
    p.pause();
    let state_after_one = p.state;
    let index_after_one = p.queue_index;
    let playhead_after_one = p.playhead;
    p.pause();
    assert_eq!(p.state, state_after_one);
    assert_eq!(p.state, PlayState::Paused);
    assert_eq!(p.queue_index, index_after_one);
    assert_eq!(p.playhead, playhead_after_one);
    p.play();
    assert!(p.playing());
}

#[test]
fn play_on_idle_controller_is_a_no_op() {
    let mut p = Player::new(false);
    p.play();
    assert_eq!(p.state, PlayState::Idle);
    assert!(!p.playing());
}

#[test]
fn exhausted_sink_advances_to_the_next_track() {
    let mut p = Player::new(false);
    p.load_library_into_queue(vec![Some(track("a.flac", 180)), Some(track("b.flac", 200))]);
    p.track_loaded(0);
    let action = p.update(180, MAX_VOLUME, true);
    let req = action.play.expect("auto-advance fires");
    assert_eq!(req.index, 1);
    assert_eq!(req.path, b"/music/b.flac".to_vec());
    p.track_loaded(1);
    assert_eq!(p.queue_index, 1);
    assert_eq!(p.playhead, 0);
    assert!(p.playing());
}

#[test]
fn exhausted_sink_after_last_track_stops() {
    let mut p = Player::new(false);
    p.load_library_into_queue(vec![Some(track("a.flac", 180))]);
    p.track_loaded(0);
    let action = p.update(180, MAX_VOLUME, true);
    assert!(action.play.is_none());
    assert_eq!(p.queue_index, 0);
    assert_eq!(p.state, PlayState::Idle);
    assert!(!p.playing());
}

#[test]
fn update_pushes_the_stored_volume_to_a_lagging_sink() {
    let mut p = Player::new(false);
    p.load_library_into_queue(vec![Some(track("a.flac", 60))]);
    p.track_loaded(0);
    p.set_volume(50);
    assert_eq!(p.volume(), 50);
    let action = p.update(3, MAX_VOLUME, false);
    assert_eq!(action.set_volume, Some(50));
    assert_eq!(p.playhead, 3);
    // the sink now reports 50: nothing to push
    let action = p.update(4, 50, false);
    assert_eq!(action.set_volume, None);
}

#[test]
fn update_refreshes_the_playhead_without_touching_the_rest() {
    let mut p = Player::new(false);
    p.load_library_into_queue(vec![Some(track("a.flac", 60))]);
    p.track_loaded(0);
    p.pause();
    let action = p.update(42, MAX_VOLUME, false);
    assert!(action.play.is_none());
    assert_eq!(p.playhead, 42);
    assert_eq!(p.state, PlayState::Paused);
    assert_eq!(p.queue_index, 0);
}

#[test]
fn failed_decode_stops_playback_and_keeps_the_position() {
    let mut p = Player::new(false);
    p.load_library_into_queue(vec![Some(track("a.flac", 60)), Some(track("b.flac", 60))]);
    p.track_loaded(1);
    p.play_track(0).expect("index 0 is in range");
    p.track_failed();
    assert_eq!(p.state, PlayState::Idle);
    assert_eq!(p.queue_index, 1);
    // a stopped controller does not auto-advance
    let action = p.update(0, MAX_VOLUME, true);
    assert!(action.play.is_none());
}

#[test]
fn load_library_skips_unreadable_entries() {
    let mut p = Player::new(false);
    p.load_library_into_queue(vec![Some(track("good.flac", 120)), None]);
    assert_eq!(p.queue.len(), 1);
    assert_eq!(p.queue[0].title, "good.flac");
    assert_eq!(p.queue_index, 0);
    assert_eq!(p.state, PlayState::Idle);
}

#[test]
fn load_library_replaces_the_queue_wholesale() {
    let mut p = Player::new(false);
    p.load_library_into_queue(vec![Some(track("a.flac", 1)), Some(track("b.flac", 2))]);
    p.track_loaded(1);
    p.load_library_into_queue(vec![Some(track("x.flac", 3))]);
    assert_eq!(p.queue.len(), 1);
    assert_eq!(p.queue[0].title, "x.flac");
    assert_eq!(p.queue_index, 0);
    assert_eq!(p.state, PlayState::Idle);
    assert_eq!(p.playhead, 0);
}

#[test]
fn update_playhead_returns_the_seek_target() {
    let mut p = Player::new(false);
    let r = p.update_playhead(37);
    assert_eq!(r, 37);
    assert_eq!(p.playhead, 37);
}

#[test]
fn presence_info_carries_artist_and_title() {
    let mut p = Player::new(true);
    let t = Track::new(
        b"/music/song.flac".to_vec(),
        "/music/song.flac".to_string(),
        Some("song.flac".to_string()),
        Some(TagInfo {
            title: Some("Song".to_string()),
            artist: Some("Band".to_string()),
        }),
        200,
        Some(320),
    );
    p.load_library_into_queue(vec![Some(t)]);
    p.play_track(0).expect("index 0 is in range");
    let info = p.track_loaded(0).expect("presence is enabled");
    assert_eq!(info.artist, "Band");
    assert_eq!(info.title, "Song");
}
