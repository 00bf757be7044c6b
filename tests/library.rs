use stremio_core::common::Loadable;
use stremio_core::effects::{Effect, Effects};
use stremio_core::library::{LibraryBucket, LibraryItem, LibraryItemState, SYNC_GRACE_MS};
use stremio_core::msg::{Action, Msg};
use stremio_core::resource::{PosterShape, MetaItemBehaviorHints, MetaItemPreview};

fn item(id: &str, content_type: &str, removed: bool, temp: bool, mtime: i64, offset: u64) -> LibraryItem {
    let mut state = LibraryItemState::default();
    state.time_offset = offset;
    LibraryItem {
        id: id.into(),
        name: id.into(),
        content_type: content_type.into(),
        poster: None,
        poster_shape: PosterShape::Poster,
        removed,
        temp,
        ctime: None,
        mtime,
        state,
        behavior_hints: MetaItemBehaviorHints { default_video_id: None, featured_video_id: None, has_scheduled_videos: false },
    }
}

#[test]
fn should_sync_follows_type_and_grace_window() {
    let now = 100 * SYNC_GRACE_MS;
    assert!(item("a", "movie", false, false, 0, 0).should_sync(now));
    assert!(!item("a", "other", false, false, now, 0).should_sync(now));
    assert!(item("a", "movie", true, false, now - 1000, 0).should_sync(now));
    assert!(!item("a", "movie", true, false, now - SYNC_GRACE_MS, 0).should_sync(now));
    assert!(item("a", "movie", true, false, 0, 0).should_sync(i64::MIN));
}

#[test]
fn continue_watching_needs_progress() {
    assert!(item("a", "movie", false, false, 0, 10).is_in_continue_watching());
    assert!(item("a", "movie", true, true, 0, 10).is_in_continue_watching());
    assert!(!item("a", "movie", true, false, 0, 10).is_in_continue_watching());
    assert!(!item("a", "movie", false, false, 0, 0).is_in_continue_watching());
    assert!(!item("a", "other", false, false, 0, 10).is_in_continue_watching());
}

#[test]
fn new_item_from_preview_is_temporary() {
    let preview = MetaItemPreview {
        id: "tt1".into(),
        content_type: "movie".into(),
        name: "Film".into(),
        poster: Some("https://p/".into()),
        poster_shape: PosterShape::Poster,
        behavior_hints: MetaItemBehaviorHints { default_video_id: None, featured_video_id: None, has_scheduled_videos: false },
    };
    let fresh = LibraryItem::from_meta_preview(&preview, 42);
    assert!(fresh.removed && fresh.temp);
    assert_eq!(fresh.ctime, Some(42));
    assert_eq!(fresh.mtime, 42);
    assert_eq!(fresh.poster.as_deref(), Some("https://p/"));
    let mut old = item("tt1", "movie", false, false, 7, 3);
    old.name = "Old".into();
    let merged = LibraryItem::from_meta_preview_and_item(&preview, &old);
    assert_eq!(merged.name, "Film");
    assert_eq!(merged.mtime, 7);
    assert_eq!(merged.state.time_offset, 3);
    assert!(!merged.removed);
}

#[test]
fn bucket_insert_replaces_by_id() {
    let mut bucket = LibraryBucket { uid: None, items: vec![] };
    bucket.insert(item("a", "movie", false, false, 1, 0));
    bucket.insert(item("b", "movie", false, false, 1, 0));
    bucket.insert(item("a", "movie", false, false, 2, 0));
    assert_eq!(bucket.items.len(), 2);
    assert_eq!(bucket.get(&"a".to_string()).unwrap().mtime, 2);
    assert!(bucket.get(&"c".to_string()).is_none());
}

#[test]
fn loadable_readiness() {
    assert!(Loadable::<u8, String>::Ready(1).is_ready());
    assert!(Loadable::<u8, String>::ReadyEmpty.is_ready());
    assert!(!Loadable::<u8, String>::Loading.is_ready());
    assert!(!Loadable::<u8, String>::Error("e".into()).is_ready());
}

#[test]
fn effects_join_ors_the_flags() {
    let a = Effects::none().unchanged();
    let b = Effects::msgs(vec![Msg::Action(Action::Unload), Msg::Action(Action::Unload)]);
    assert!(b.has_changed);
    let joined = a.join(b);
    assert!(joined.has_changed);
    assert_eq!(joined.effects.len(), 2);
    assert!(matches!(joined.effects[0], Effect::Msg(_)));
    let both_unchanged = Effects::none().unchanged().join(Effects::many(vec![]).unchanged());
    assert!(!both_unchanged.has_changed);
    assert!(Effects::futures(vec![]).effects.is_empty());
}
