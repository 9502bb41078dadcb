use limusic::models::metadata::SongItem;
use limusic::queue::{
    disabled_clients, format_duration, parse_duration_ms, quality_from_setting, song_to_track,
    track_to_song, QueueState, Track,
};
use limusic::models::player::AudioQuality;
use limusic::queue::resume_seek;

fn song(id: &str) -> SongItem {
    SongItem {
        video_id: id.into(),
        title: format!("t{id}"),
        artists: "a".into(),
        artist_id: None,
        album: None,
        album_id: None,
        duration: Some("3:21".into()),
        thumbnail: None,
        set_video_id: None,
        liked: None,
        queued_by: None,
        queued: false,
        autoplay: false,
    }
}

#[test]
fn durations_parse_and_format() {
    assert_eq!(parse_duration_ms(Some("3:21")), 201_000);
    assert_eq!(parse_duration_ms(Some("1:02:03")), 3_723_000);
    assert_eq!(parse_duration_ms(Some("45")), 45_000);
    assert_eq!(parse_duration_ms(Some(" 4 : 05 ")), 245_000);
    assert_eq!(parse_duration_ms(Some("x:10")), 10_000, "unreadable parts are dropped");
    assert_eq!(parse_duration_ms(Some("1:2:3:4")), 0);
    assert_eq!(parse_duration_ms(None), 0);
    assert_eq!(format_duration(201_000), "3:21");
    assert_eq!(format_duration(65_999), "1:05");
    assert_eq!(format_duration(3_723_000), "62:03");
}

#[test]
fn tracks_round_trip_through_songs() {
    let t = song_to_track(&song("v1"));
    assert_eq!(t.id, "v1");
    assert_eq!(t.duration_ms, 201_000);
    let s = track_to_song(&t);
    assert_eq!(s.video_id, "v1");
    assert_eq!(s.duration.as_deref(), Some("3:21"));
    let zero = Track { id: "z".into(), title: "z".into(), artist: "z".into(), thumbnail: None, duration_ms: 0 };
    assert_eq!(track_to_song(&zero).duration, None);
}

#[test]
fn queue_moves_within_bounds() {
    let mut q = QueueState::new();
    assert!(q.current_item().is_none());
    assert!(!q.play_tracks(vec![], 3));
    assert!(q.play_tracks(vec![song("a"), song("b"), song("c")], 9));
    assert_eq!(q.current, 2, "start clamps to the last track");
    assert!(!q.advance(), "no next at the end");
    assert!(q.play_index(0));
    assert!(!q.play_index(3));
    assert_eq!(q.current, 0);
    assert!(q.advance());
    assert_eq!(q.current_item().unwrap().video_id, "b");
    assert_eq!(q.prev_index(), 0);
    assert_eq!(q.next_index(), 2);
}

#[test]
fn radio_leaves_out_the_seed() {
    let mut q = QueueState::new();
    q.play_song(song("seed"));
    q.add_radio(vec![song("seed"), song("r1"), song("r2")], "seed");
    let ids: Vec<&str> = q.items.iter().map(|s| s.video_id.as_str()).collect();
    assert_eq!(ids, ["seed", "r1", "r2"]);
}

#[test]
fn lookahead_and_gapless_promotion() {
    let mut q = QueueState::new();
    q.play_tracks(vec![song("a"), song("b")], 0);
    assert_eq!(q.lookahead_target(), Some(1));
    q.lookahead_primed(1, "IOS".into(), Some("u2".into()));
    assert_eq!(q.lookahead_target(), None, "already primed");
    q.started("WEB_REMIX".into(), Some("u1".into()), "cpn1".into());
    assert_eq!(q.failed_main_client_video().as_deref(), Some("a"));
    assert!(q.advance());
    q.gapless_advanced("cpn2".into());
    assert_eq!(q.current_client.as_deref(), Some("IOS"));
    assert_eq!(q.playback_url.as_deref(), Some("u2"));
    assert_eq!(q.failed_main_client_video(), None);
    assert_eq!(q.lookahead_target(), None, "end of queue");
}

#[test]
fn history_ping_fires_once() {
    let mut q = QueueState::new();
    q.started("IOS".into(), Some("u".into()), "c".into());
    assert_eq!(q.take_history_ping(), Some(("u".to_owned(), "c".to_owned())));
    assert_eq!(q.take_history_ping(), None);
}

#[test]
fn restore_clamps_the_saved_position() {
    let mut q = QueueState::new();
    assert!(!q.restore(vec![], 1));
    assert!(q.restore(vec![song("a"), song("b")], 7));
    assert_eq!(q.current, 1);
}

#[test]
fn listen_together_queue() {
    let mut q = QueueState::new();
    let t = |id: &str| Track { id: id.into(), title: id.into(), artist: "x".into(), thumbnail: None, duration_ms: 1000 };
    q.follow_host(&t("h"), &vec![t("u1"), t("u2")]);
    assert_eq!(q.items.len(), 3);
    assert_eq!(q.current, 0);
    let up = q.upcoming_tracks();
    assert_eq!(up.iter().map(|t| t.id.as_str()).collect::<Vec<_>>(), ["u1", "u2"]);
    q.enqueue_track(&t("s"));
    assert_eq!(q.items.last().unwrap().video_id, "s");
}

#[test]
fn settings_read() {
    assert_eq!(quality_from_setting(Some("LOW")), AudioQuality::Low);
    assert_eq!(quality_from_setting(Some("AUTO")), AudioQuality::Auto);
    assert_eq!(quality_from_setting(Some("x")), AudioQuality::High);
    assert_eq!(quality_from_setting(None), AudioQuality::High);
    assert_eq!(disabled_clients(" IOS, ,VISIONOS ,"), vec!["IOS".to_owned(), "VISIONOS".to_owned()]);
    assert!(disabled_clients("").is_empty());
}

#[test]
fn unplayable_tracks_are_skipped_and_the_lookahead_dropped() {
    let mut q = QueueState::new();
    q.play_tracks(vec![song("a"), song("b")], 0);
    q.lookahead_primed(1, "IOS".into(), None);
    assert!(q.is_current("a"));
    assert!(q.skip_unplayable());
    assert!(q.is_current("b"));
    assert!(!q.is_current("a"));
    assert_eq!(q.lookahead_loaded, None);
    assert!(!q.skip_unplayable(), "nothing after the last track");
    assert!(q.is_current("b"));
    assert!(!QueueState::new().is_current("a"));
}

#[test]
fn following_the_host_keeps_each_tracks_details() {
    let mut q = QueueState::new();
    let host = Track { id: "h".into(), title: "Host Song".into(), artist: "A".into(), thumbnail: Some("t.jpg".into()), duration_ms: 201_000 };
    let next = Track { id: "n".into(), title: "Next".into(), artist: "B".into(), thumbnail: None, duration_ms: 0 };
    q.follow_host(&host, &vec![next]);
    assert_eq!(q.items[0].title, "Host Song");
    assert_eq!(q.items[0].artists, "A");
    assert_eq!(q.items[0].thumbnail.as_deref(), Some("t.jpg"));
    assert_eq!(q.items[0].duration.as_deref(), Some("3:21"));
    assert_eq!(q.items[1].title, "Next");
    assert_eq!(q.items[1].duration, None);
    assert!(!q.items[1].queued && !q.items[1].autoplay);
}

#[test]
fn a_restored_position_seeks_only_its_own_track() {
    let mut pending = Some(("a".to_owned(), 61_000));
    assert_eq!(resume_seek(&mut pending, "b"), None);
    assert!(pending.is_none(), "any start uses it up");
    let mut pending = Some(("a".to_owned(), 61_000));
    assert_eq!(resume_seek(&mut pending, "a"), Some(61_000));
}
