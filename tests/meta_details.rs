use stremio_core::addon::{
    AggrRequest, Descriptor, ExtraValue, Manifest, ManifestCatalog, ManifestResource,
    ResourcePath, ResourceRequest,
};
use stremio_core::common::{Loadable, ResourceLoadable};
use stremio_core::ctx::{Ctx, Profile};
use stremio_core::effects::{Effect, EffectFuture, Task};
use stremio_core::library::{LibraryBucket, LibraryItem, LibraryItemState};
use stremio_core::meta_details::{streams_from_meta_items, MetaDetails, Selected};
use stremio_core::msg::{Action, ActionLoad, ActionMetaDetails, Internal, Msg};
use stremio_core::resource::{PosterShape, 
    MetaItem, MetaItemBehaviorHints, MetaItemPreview, ResourceResponse, SeriesInfo, Stream,
    StreamSource, Video,
};
use stremio_core::watched_bitfield::WatchedBitField;

fn descriptor(url: &str, resource: &str, types: &[&str]) -> Descriptor {
    Descriptor {
        transport_url: url.to_string(),
        manifest: Manifest {
            id: url.to_string(),
            name: url.to_string(),
            types: types.iter().map(|t| t.to_string()).collect(),
            resources: vec![ManifestResource { name: resource.to_string(), types: None }],
            catalogs: vec![],
        },
    }
}

fn path(resource: &str, content_type: &str, id: &str) -> ResourcePath {
    ResourcePath {
        resource: resource.to_string(),
        content_type: content_type.to_string(),
        id: id.to_string(),
        extra: vec![],
    }
}

fn video(id: &str, series: Option<(u32, u32)>) -> Video {
    Video {
        id: id.to_string(),
        title: id.to_string(),
        released: None,
        series_info: series.map(|(season, episode)| SeriesInfo { season, episode }),
        streams: vec![],
    }
}

fn meta(id: &str, videos: Vec<Video>) -> MetaItem {
    MetaItem {
        preview: MetaItemPreview {
            id: id.to_string(),
            content_type: "series".to_string(),
            name: "Show".to_string(),
            poster: None,
            poster_shape: PosterShape::Poster,
            behavior_hints: MetaItemBehaviorHints { default_video_id: None, featured_video_id: None, has_scheduled_videos: false },
        },
        videos,
    }
}

fn library_item(id: &str, watched: Option<String>) -> LibraryItem {
    let mut state = LibraryItemState::default();
    state.watched = watched;
    LibraryItem {
        id: id.to_string(),
        name: "Show".to_string(),
        content_type: "series".to_string(),
        poster: None,
        poster_shape: PosterShape::Poster,
        removed: false,
        temp: false,
        ctime: Some(1),
        mtime: 1,
        state,
        behavior_hints: MetaItemBehaviorHints { default_video_id: None, featured_video_id: None, has_scheduled_videos: false },
    }
}

fn ctx(addons: Vec<Descriptor>, items: Vec<LibraryItem>) -> Ctx {
    Ctx { profile: Profile { addons }, library: LibraryBucket { uid: None, items } }
}

fn load(meta_id: &str) -> Msg {
    Msg::Action(Action::Load(ActionLoad::MetaDetails(Selected {
        meta_path: path("meta", "series", meta_id),
        stream_path: None,
    })))
}

fn meta_result(request: &ResourceRequest, item: MetaItem) -> Msg {
    Msg::Internal(Internal::ResourceRequestResult(
        request.clone(),
        Ok(ResourceResponse::Meta { meta: item }),
    ))
}

#[test]
fn plan_keeps_provider_order_and_skips_unsupported() {
    let addons = vec![
        descriptor("https://a/", "meta", &["series"]),
        descriptor("https://b/", "stream", &["series"]),
        descriptor("https://c/", "meta", &["movie", "series"]),
        descriptor("https://d/", "meta", &["movie"]),
    ];
    let request = AggrRequest::AllOfResource(path("meta", "series", "tt1"));
    let plan = request.plan(&addons);
    let bases: Vec<&str> = plan.iter().map(|r| r.base.as_str()).collect();
    assert_eq!(bases, vec!["https://a/", "https://c/"]);
    assert!(plan.iter().all(|r| r.path == path("meta", "series", "tt1")));
    assert!(request.plan(&addons) == plan);
    assert!(request.plan(&vec![]).is_empty());
}

#[test]
fn plan_of_catalogs_respects_extra() {
    let mut a = descriptor("https://a/", "catalog", &["movie"]);
    a.manifest.catalogs = vec![
        ManifestCatalog {
            content_type: "movie".into(),
            id: "top".into(),
            extra_required: vec![],
            extra_supported: vec!["skip".into()],
        },
        ManifestCatalog {
            content_type: "movie".into(),
            id: "search".into(),
            extra_required: vec!["search".into()],
            extra_supported: vec!["search".into()],
        },
    ];
    let plain = AggrRequest::AllCatalogs { extra: vec![] }.plan(&vec![a.clone()]);
    assert_eq!(plain.len(), 1);
    assert_eq!(plain[0].path.id, "top");
    assert_eq!(plain[0].path.resource, "catalog");
    let search = AggrRequest::AllCatalogs {
        extra: vec![ExtraValue { name: "search".into(), value: "x".into() }],
    }
    .plan(&vec![a]);
    assert_eq!(search.len(), 1);
    assert_eq!(search[0].path.id, "search");
}

#[test]
fn load_with_one_capable_provider_then_episodes_are_ranked() {
    let addons = vec![
        descriptor("https://a/", "meta", &["series"]),
        descriptor("https://b/", "stream", &["series"]),
    ];
    let ctx = ctx(addons, vec![]);
    let mut md = MetaDetails::new();
    let effects = md.update(&load("tt1"), &ctx);
    assert!(effects.has_changed);
    assert_eq!(md.meta_items.len(), 1);
    assert_eq!(md.meta_items[0].request.base, "https://a/");
    assert!(matches!(md.meta_items[0].content, Some(Loadable::Loading)));
    assert_eq!(effects.effects.len(), 1);
    assert!(matches!(
        &effects.effects[0],
        Effect::Future(EffectFuture::Concurrent(Task::FetchResource(r))) if r.base == "https://a/"
    ));

    let request = md.meta_items[0].request.clone();
    let item = meta(
        "tt1",
        vec![video("s1e10", Some((1, 10))), video("extra", None), video("s1e2", Some((1, 2)))],
    );
    let effects = md.update(&meta_result(&request, item), &ctx);
    assert!(effects.has_changed);
    let loaded = match &md.meta_items[0].content {
        Some(Loadable::Ready(m)) => m,
        _ => panic!("metadata not ready"),
    };
    let ranked = LibraryItemState::default().watched_bitfield(&loaded.videos);
    let pos = |id: &str| ranked.video_ids.iter().position(|v| v == id).unwrap();
    assert!(pos("s1e2") < pos("s1e10"));
    // a video without season and episode sorts as the least possible value
    assert_eq!(pos("extra"), 0);
    assert_eq!(md.watched.len(), 1);
    assert!(md.watched[0].is_some());
}

#[test]
fn stale_result_is_ignored() {
    let ctx = ctx(vec![descriptor("https://a/", "meta", &["series"])], vec![]);
    let mut md = MetaDetails::new();
    md.update(&load("A"), &ctx);
    let request_a = md.meta_items[0].request.clone();
    md.update(&load("B"), &ctx);
    assert_eq!(md.meta_items[0].request.path.id, "B");
    let effects = md.update(&meta_result(&request_a, meta("A", vec![])), &ctx);
    assert!(!effects.has_changed);
    assert!(effects.effects.is_empty());
    assert!(matches!(md.meta_items[0].content, Some(Loadable::Loading)));
    assert!(md.watched.iter().all(|w| w.is_none()));
}

#[test]
fn reloading_the_same_plan_changes_nothing() {
    let ctx = ctx(vec![descriptor("https://a/", "meta", &["series"])], vec![]);
    let mut md = MetaDetails::new();
    md.update(&load("A"), &ctx);
    let effects = md.update(&load("A"), &ctx);
    assert!(!effects.has_changed);
    assert!(effects.effects.is_empty());
}

#[test]
fn failed_result_is_an_error_slot() {
    let ctx = ctx(vec![descriptor("https://a/", "meta", &["series"])], vec![]);
    let mut md = MetaDetails::new();
    md.update(&load("A"), &ctx);
    let request = md.meta_items[0].request.clone();
    let msg = Msg::Internal(Internal::ResourceRequestResult(request.clone(), Err("timeout".into())));
    assert!(md.update(&msg, &ctx).has_changed);
    assert!(matches!(&md.meta_items[0].content, Some(Loadable::Error(e)) if e == "timeout"));
    let wrong = Msg::Internal(Internal::ResourceRequestResult(
        request,
        Ok(ResourceResponse::Streams { streams: vec![] }),
    ));
    // the slot is no longer loading
    assert!(!md.update(&wrong, &ctx).has_changed);
}

#[test]
fn unexpected_response_is_an_error_slot() {
    let ctx = ctx(vec![descriptor("https://a/", "meta", &["series"])], vec![]);
    let mut md = MetaDetails::new();
    md.update(&load("A"), &ctx);
    let request = md.meta_items[0].request.clone();
    let wrong = Msg::Internal(Internal::ResourceRequestResult(
        request,
        Ok(ResourceResponse::Streams { streams: vec![] }),
    ));
    assert!(md.update(&wrong, &ctx).has_changed);
    assert!(matches!(&md.meta_items[0].content, Some(Loadable::Error(e)) if e == "unexpected ResourceResponse"));
}

#[test]
fn mark_as_watched_requests_a_library_update() {
    let ids: Vec<String> = (1..=5).map(|i| format!("ep{}", i)).collect();
    let empty = WatchedBitField::construct_from_array(vec![], ids.clone()).encode();
    let ctx = ctx(
        vec![descriptor("https://a/", "meta", &["series"])],
        vec![library_item("tt1", Some(empty))],
    );
    let mut md = MetaDetails::new();
    md.update(&load("tt1"), &ctx);
    assert!(md.library_item.is_some());
    let request = md.meta_items[0].request.clone();
    let videos = ids.iter().map(|id| video(id, None)).collect();
    md.update(&meta_result(&request, meta("tt1", videos)), &ctx);
    let msg = Msg::Action(Action::MetaDetails(ActionMetaDetails::MarkAsWatched("ep3".into(), true)));
    let effects = md.update(&msg, &ctx);
    assert!(!effects.has_changed);
    assert_eq!(effects.effects.len(), 1);
    let item = match &effects.effects[0] {
        Effect::Msg(m) => match m.as_ref() {
            Msg::Internal(Internal::UpdateLibraryItem(item)) => item,
            _ => panic!("not a library update"),
        },
        _ => panic!("not a message"),
    };
    let text = item.state.watched.clone().unwrap();
    let decoded = WatchedBitField::construct_and_resize(&text, ids.clone()).unwrap();
    for (i, id) in ids.iter().enumerate() {
        assert_eq!(decoded.get(i), id == "ep3", "{}", id);
    }
    // the view itself is untouched
    assert!(!md.watched[0].as_ref().unwrap().get_video("ep3"));
}

#[test]
fn mark_as_watched_without_library_item_does_nothing() {
    let ctx = ctx(vec![descriptor("https://a/", "meta", &["series"])], vec![]);
    let mut md = MetaDetails::new();
    md.update(&load("tt1"), &ctx);
    let msg = Msg::Action(Action::MetaDetails(ActionMetaDetails::MarkAsWatched("ep3".into(), true)));
    let effects = md.update(&msg, &ctx);
    assert!(!effects.has_changed);
    assert!(effects.effects.is_empty());
}

#[test]
fn unload_clears_everything() {
    let ctx = ctx(vec![descriptor("https://a/", "meta", &["series"])], vec![]);
    let mut md = MetaDetails::new();
    assert!(!md.update(&Msg::Action(Action::Unload), &ctx).has_changed);
    md.update(&load("tt1"), &ctx);
    assert!(md.update(&Msg::Action(Action::Unload), &ctx).has_changed);
    assert!(md.selected.is_none() && md.meta_items.is_empty() && md.watched.is_empty());
}

#[test]
fn embedded_streams_are_used() {
    let ctx = ctx(
        vec![descriptor("https://a/", "meta", &["series"]), descriptor("https://s/", "stream", &["series"])],
        vec![],
    );
    let mut v = video("ep1", Some((1, 1)));
    v.streams = vec![Stream { source: StreamSource::YouTube { yt_id: "abc".into() }, name: None }];
    let item = meta("tt1", vec![video("ep0", Some((1, 0))), v]);
    let slots = vec![ResourceLoadable {
        request: ResourceRequest { base: "https://a/".into(), path: path("meta", "series", "tt1") },
        content: Some(Loadable::Ready(item)),
    }];
    let found = streams_from_meta_items(&slots, &"ep1".to_string()).unwrap();
    assert_eq!(found.request.base, "https://a/");
    assert!(matches!(&found.content, Some(Loadable::Ready(s)) if s.len() == 1));
    assert!(streams_from_meta_items(&slots, &"ep0".to_string()).is_none());

    let mut md = MetaDetails::new();
    let sel = Selected {
        meta_path: path("meta", "series", "tt1"),
        stream_path: Some(path("stream", "series", "ep1")),
    };
    let effects = md.update(&Msg::Action(Action::Load(ActionLoad::MetaDetails(sel))), &ctx);
    // nothing embedded yet: one metadata fetch and one streams fetch
    assert_eq!(effects.effects.len(), 2);
    assert_eq!(md.streams.len(), 1);
    assert_eq!(md.streams[0].request.base, "https://s/");
    let request = md.meta_items[0].request.clone();
    md.update(&meta_result(&request, meta("tt1", vec![slots_video()])), &ctx);
    assert_eq!(md.streams.len(), 1);
    assert_eq!(md.streams[0].request.base, "https://a/");
}

fn slots_video() -> Video {
    let mut v = video("ep1", Some((1, 1)));
    v.streams = vec![Stream { source: StreamSource::Url { url: "https://x/v.mp4".into() }, name: None }];
    v
}

#[test]
fn library_change_updates_item() {
    let mut c = ctx(vec![descriptor("https://a/", "meta", &["series"])], vec![]);
    let mut md = MetaDetails::new();
    md.update(&load("tt1"), &c);
    assert!(md.library_item.is_none());
    let effects = c.update(&Msg::Internal(Internal::UpdateLibraryItem(library_item("tt1", None))));
    assert!(effects.has_changed);
    assert_eq!(effects.effects.len(), 2);
    assert!(matches!(&effects.effects[1], Effect::Future(EffectFuture::Sequential(Task::PersistLibraryItem(_)))));
    let effects = md.update(&Msg::Internal(Internal::LibraryChanged(false)), &c);
    assert!(effects.has_changed);
    assert_eq!(md.library_item.as_ref().unwrap().id, "tt1");
}

#[test]
fn details_bitfield_follows_sorted_rank() {
    let ctx = ctx(vec![descriptor("https://a/", "meta", &["series"])], vec![]);
    let mut md = MetaDetails::new();
    md.update(&load("tt1"), &ctx);
    let request = md.meta_items[0].request.clone();
    let item = meta("tt1", vec![video("s1e10", Some((1, 10))), video("s1e2", Some((1, 2)))]);
    md.update(&meta_result(&request, item), &ctx);
    let w = md.watched[0].as_ref().unwrap();
    assert_eq!(w.video_ids, vec!["s1e2", "s1e10"]);
}

#[test]
fn unreadable_stored_text_gives_unwatched_bitfield_in_details() {
    let ctx = ctx(
        vec![descriptor("https://a/", "meta", &["series"])],
        vec![library_item("tt1", Some("not-base64".to_string()))],
    );
    let mut md = MetaDetails::new();
    md.update(&load("tt1"), &ctx);
    let request = md.meta_items[0].request.clone();
    let item = meta("tt1", vec![video("a", Some((1, 1))), video("b", Some((1, 2))), video("c", None)]);
    md.update(&meta_result(&request, item), &ctx);
    let w = md.watched[0].as_ref().unwrap();
    assert_eq!(w.bitfield.length, 3);
    assert!((0..3).all(|i| !w.get(i)));
}
