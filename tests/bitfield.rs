use std::convert::TryFrom;
use stremio_core::bitfield8::{BitField8, Error};
use stremio_core::library::LibraryItemState;
use stremio_core::resource::{SeriesInfo, Video};
use stremio_core::watched_bitfield::WatchedBitField;

fn ids(n: usize) -> Vec<String> {
    (0..n).map(|i| format!("ep{}", i)).collect()
}

fn video(id: &str, series: Option<(u32, u32)>, released: Option<i64>) -> Video {
    Video {
        id: id.to_string(),
        title: id.to_string(),
        released,
        series_info: series.map(|(season, episode)| SeriesInfo { season, episode }),
        streams: vec![],
    }
}

#[test]
fn parse_length() {
    let watched = "eJyTZwAAAEAAIA==".to_string();
    let bf = BitField8::try_from((watched.clone(), Some(9))).unwrap();
    assert_eq!(bf.length, 9);

    // Without a length, every decoded bit counts: a whole number of bytes.
    let bf = BitField8::try_from((watched, None)).unwrap();
    assert_eq!(bf.length, 16);
}

#[test]
fn new_is_all_unset() {
    let bf = BitField8::new(10);
    assert_eq!(bf.length, 10);
    assert_eq!(bf.values.len(), 2);
    assert!((0..10).all(|i| !bf.get(i)));
}

#[test]
fn set_and_get() {
    let mut bf = BitField8::new(10);
    bf.set(3, true);
    bf.set(9, true);
    assert!(bf.get(3));
    assert!(bf.get(9));
    assert!(!bf.get(4));
    assert_eq!(bf.values, vec![0b0000_1000, 0b0000_0010]);
    bf.set(3, false);
    assert!(!bf.get(3));
    assert_eq!(bf.values, vec![0, 0b0000_0010]);
}

#[test]
fn set_past_the_end_grows() {
    let mut bf = BitField8::new(3);
    bf.set(17, true);
    assert_eq!(bf.values.len(), 3);
    assert_eq!(bf.length, 24);
    assert!(bf.get(17));
    assert!(!bf.get(16));
    assert!(!bf.get(100));
}

#[test]
fn last_index_of_skips_the_last_position() {
    let mut bf = BitField8::new(6);
    bf.set(2, true);
    bf.set(5, true);
    assert_eq!(bf.last_index_of(true), Some(2));
    assert_eq!(bf.last_index_of(false), Some(4));
    let empty = BitField8::new(0);
    assert_eq!(empty.last_index_of(true), None);
    let one = BitField8::new(1);
    assert_eq!(one.last_index_of(false), None);
}

#[test]
fn round_trip_keeps_every_bit() {
    let mut bf = BitField8::new(13);
    for i in [0usize, 5, 7, 12] {
        bf.set(i, true);
    }
    let text = bf.encode();
    assert_ne!(text, "");
    let back = BitField8::from_encoded(&text, Some(13)).unwrap();
    assert_eq!(back.length, 13);
    for i in 0..13 {
        assert_eq!(back.get(i), bf.get(i), "bit {}", i);
    }
}

#[test]
fn malformed_text_is_a_decode_error() {
    assert_eq!(BitField8::from_encoded("not-base64", Some(4)).unwrap_err(), Error::Decode);
    // valid base64, but not a zlib stream
    assert_eq!(BitField8::from_encoded("AAAA", Some(4)).unwrap_err(), Error::Decode);
}

#[test]
fn resize_keeps_old_bits_and_clears_new_ones() {
    let mut w = WatchedBitField::construct_from_array(vec![], ids(5));
    w.set_video("ep1", true);
    w.set_video("ep4", true);
    let text = w.encode();
    let bigger = WatchedBitField::construct_and_resize(&text, ids(12)).unwrap();
    for i in 0..12 {
        assert_eq!(bigger.get(i), i == 1 || i == 4, "bit {}", i);
    }
}

#[test]
fn construct_from_array_marks_listed_ids() {
    let w = WatchedBitField::construct_from_array(
        vec!["ep2".to_string(), "other".to_string()],
        ids(4),
    );
    assert!(w.get_video("ep2"));
    assert!(!w.get_video("ep0"));
    assert!(!w.get_video("other"));
    assert!((0..4).all(|i| w.get(i) == (i == 2)));
}

#[test]
fn malformed_watched_text_falls_back_to_unwatched() {
    assert!(WatchedBitField::construct_and_resize("not-base64", ids(3)).is_err());
    let mut state = LibraryItemState::default();
    state.watched = Some("not-base64".to_string());
    let videos = vec![video("a", Some((1, 1)), None), video("b", Some((1, 2)), None)];
    let w = state.watched_bitfield(&videos);
    assert_eq!(w.video_ids.len(), 2);
    assert_eq!(w.bitfield.length, 2);
    assert!(!w.get(0) && !w.get(1));
}

#[test]
fn watched_bitfield_orders_videos() {
    let videos = vec![
        video("s1e10", Some((1, 10)), None),
        video("s1e2", Some((1, 2)), None),
        video("special", None, Some(5)),
        video("s2e1", Some((2, 1)), Some(1)),
        video("s1e2b", Some((1, 2)), Some(-3)),
    ];
    let w = LibraryItemState::default().watched_bitfield(&videos);
    assert_eq!(w.video_ids, vec!["special", "s1e2", "s1e2b", "s1e10", "s2e1"]);
}

#[test]
fn watched_bitfield_reads_stored_text() {
    let videos = vec![video("a", Some((1, 1)), None), video("b", Some((1, 2)), None), video("c", Some((1, 3)), None)];
    let mut w = WatchedBitField::construct_from_array(vec![], vec!["a".into(), "b".into(), "c".into()]);
    w.set_video("c", true);
    let mut state = LibraryItemState::default();
    state.watched = Some(w.encode());
    let read = state.watched_bitfield(&videos);
    assert!(!read.get_video("a") && !read.get_video("b") && read.get_video("c"));
}

#[test]
fn string_try_from_matches_encode() {
    let mut bf = BitField8::new(9);
    bf.set(8, true);
    let text = String::try_from(&bf).unwrap();
    assert_eq!(text, bf.encode());
    let back = BitField8::try_from((text, Some(9))).unwrap();
    assert!(back.get(8) && !back.get(7));
}
