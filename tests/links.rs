use stremio_core::addon::{ExtraValue, ResourcePath, ResourceRequest};
use stremio_core::catalogs::{CatalogFiltered, CatalogGrouped, ContainerAction, ContainerLoad, Streams};
use stremio_core::common::Loadable;
use stremio_core::deep_links::{
    query_params_encode, AddonsDeepLinks, DiscoverDeepLinks, ErrorLink, ExternalPlayerLink,
    InstalledAddonsRequest, LibraryDeepLinks, LibraryItemDeepLinks, LibraryRequest,
    MetaItemDeepLinks, StreamDeepLinks, VideoDeepLinks,
};
use stremio_core::addon::{Descriptor, Manifest, ManifestCatalog, ManifestResource};
use stremio_core::library::{LibraryItem, LibraryItemState};
use stremio_core::resource::{PosterShape, 
    MetaItemBehaviorHints, MetaItemPreview, ResourceResponse, Stream, StreamSource, Video,
};

fn request(base: &str, resource: &str, content_type: &str, id: &str) -> ResourceRequest {
    ResourceRequest {
        base: base.into(),
        path: ResourcePath {
            resource: resource.into(),
            content_type: content_type.into(),
            id: id.into(),
            extra: vec![],
        },
    }
}

fn preview(id: &str, default_video_id: Option<&str>) -> MetaItemPreview {
    MetaItemPreview {
        id: id.into(),
        content_type: "movie".into(),
        name: id.into(),
        poster: None,
        poster_shape: PosterShape::Poster,
        behavior_hints: MetaItemBehaviorHints { default_video_id: default_video_id.map(|v| v.into()), featured_video_id: None, has_scheduled_videos: false },
    }
}

#[test]
fn error_link() {
    let link = ErrorLink::from_message(&anyhow::Error::msg("message").to_string());
    assert_eq!(link, ErrorLink("stremio:///error?message=message".to_owned()));
}

#[test]
fn query_params_are_encoded() {
    let q = query_params_encode(&vec![("a b".into(), "c&d".into()), ("x".into(), "1".into())]);
    assert_eq!(q, "a%20b=c%26d&x=1");
    assert_eq!(query_params_encode(&vec![]), "");
}

#[test]
fn external_player_links() {
    let magnet = Stream { source: StreamSource::Url { url: "magnet:?xt=urn:btih:abc".into() }, name: None };
    let link = ExternalPlayerLink::from_stream(&magnet);
    assert_eq!(link.href, "magnet:?xt=urn:btih:abc");
    assert_eq!(link.download, None);

    let http = Stream { source: StreamSource::Url { url: "https://x/v.mp4".into() }, name: None };
    let link = ExternalPlayerLink::from_stream(&http);
    // base64 of "#EXTM3U\n#EXTINF:0\nhttps://x/v.mp4"
    assert_eq!(
        link.href,
        "data:application/octet-stream;charset=utf-8;base64,I0VYVE0zVQojRVhUSU5GOjAKaHR0cHM6Ly94L3YubXA0"
    );
    assert_eq!(link.download, Some("playlist.m3u".to_string()));

    let yt = Stream { source: StreamSource::YouTube { yt_id: "a b".into() }, name: None };
    assert_eq!(ExternalPlayerLink::from_stream(&yt).href, "https://www.youtube.com/watch?v=a%20b");

    let torrent = Stream { source: StreamSource::Torrent { info_hash: "0123".into(), file_idx: None }, name: None };
    assert_eq!(ExternalPlayerLink::from_stream(&torrent).href, "magnet:?xt=urn:btih:0123");
}

#[test]
fn meta_item_links() {
    let req = request("https://a/", "catalog", "movie", "top");
    let plain = MetaItemDeepLinks::from_preview(&preview("tt 1", None), &req, &None);
    assert_eq!(plain.meta_details_videos, Some("stremio:///detail/movie/tt%201".to_string()));
    assert_eq!(plain.meta_details_streams, None);
    assert_eq!(plain.player, None);

    let direct = MetaItemDeepLinks::from_preview(&preview("tt1", Some("v1")), &req, &Some(Ok("S".into())));
    assert_eq!(direct.meta_details_videos, None);
    assert_eq!(direct.meta_details_streams, Some("stremio:///detail/movie/tt1/v1".to_string()));
    assert_eq!(
        direct.player,
        Some("stremio:///player/S/https%3A%2F%2Fa%2F/https%3A%2F%2Fa%2F/movie/tt1/v1".to_string())
    );

    let failed = MetaItemDeepLinks::from_preview(&preview("tt1", Some("v1")), &req, &Some(Err("bad".into())));
    assert_eq!(failed.player, Some("stremio:///error?message=bad".to_string()));
}

#[test]
fn library_item_links() {
    let mut state = LibraryItemState::default();
    state.video_id = Some("v2".into());
    let item = LibraryItem {
        id: "tt1".into(),
        name: "n".into(),
        content_type: "series".into(),
        poster: None,
        poster_shape: PosterShape::Poster,
        removed: false,
        temp: false,
        ctime: None,
        mtime: 0,
        state,
        behavior_hints: MetaItemBehaviorHints { default_video_id: None, featured_video_id: None, has_scheduled_videos: false },
    };
    let links = LibraryItemDeepLinks::from_item(&item);
    assert_eq!(links.meta_details_videos, Some("stremio:///detail/series/tt1".to_string()));
    assert_eq!(links.meta_details_streams, Some("stremio:///detail/series/tt1/v2".to_string()));
    assert!(links.player.is_none() && links.external_player.is_none());
}

#[test]
fn video_and_stream_links() {
    let req = request("https://a/", "meta", "series", "tt1");
    let video = Video { id: "tt1:1:2".into(), title: "t".into(), released: None, series_info: None, streams: vec![] };
    let links = VideoDeepLinks::from_video(&video, &req, &None);
    assert_eq!(links.meta_details_streams, "stremio:///detail/series/tt1/tt1%3A1%3A2");
    assert!(links.player.is_none() && links.external_player.is_none());

    let stream = Stream { source: StreamSource::External { external_url: "https://e/".into() }, name: None };
    let links = StreamDeepLinks::from_stream(&stream, &Ok("S".into()));
    assert_eq!(links.player, "stremio:///player/S");
    assert_eq!(links.external_player.href, "https://e/");
    let sreq = request("https://s/", "stream", "series", "tt1:1:2");
    let links = StreamDeepLinks::from_stream_requests(&stream, &Ok("S".into()), &sreq, &req);
    assert_eq!(
        links.player,
        "stremio:///player/S/https%3A%2F%2Fs%2F/https%3A%2F%2Fa%2F/series/tt1/tt1%3A1%3A2"
    );
}

#[test]
fn discover_addons_and_library_links() {
    let mut req = request("https://a/", "catalog", "movie", "top");
    req.path.extra = vec![ExtraValue { name: "genre".into(), value: "Sci-Fi".into() }];
    assert_eq!(
        DiscoverDeepLinks::from_request(&req).discover,
        "stremio:///discover/https%3A%2F%2Fa%2F/movie/top?genre=Sci%2DFi"
    );
    assert_eq!(AddonsDeepLinks::from_request(&req).addons, "stremio:///addons/movie/https%3A%2F%2Fa%2F/top");
    assert_eq!(
        AddonsDeepLinks::from_installed(&InstalledAddonsRequest { content_type: None }).addons,
        "stremio:///addons"
    );
    assert_eq!(LibraryDeepLinks::from_root(&"library".to_string()).library, "stremio:///library");
    let lr = LibraryRequest { content_type: Some("movie".into()), sort: "lastwatched".into(), page: 12 };
    assert_eq!(
        LibraryDeepLinks::from_request(&"library".to_string(), &lr).library,
        "stremio:///library/movie?sort=lastwatched&page=12"
    );
}

fn catalog_addon() -> Descriptor {
    Descriptor {
        transport_url: "https://a/".into(),
        manifest: Manifest {
            id: "a".into(),
            name: "a".into(),
            types: vec!["movie".into()],
            resources: vec![ManifestResource { name: "stream".into(), types: None }],
            catalogs: vec![ManifestCatalog {
                content_type: "movie".into(),
                id: "top".into(),
                extra_required: vec![],
                extra_supported: vec![],
            }],
        },
    }
}

#[test]
fn grouped_catalogs_take_at_most_25() {
    let state = CatalogGrouped::new();
    let load = ContainerAction::LoadWithCtx(vec![catalog_addon()], ContainerLoad::CatalogGrouped { extra: vec![] });
    let state = state.dispatch(&load).unwrap();
    assert_eq!(state.groups.len(), 1);
    assert!(matches!(state.groups[0].1, Loadable::Loading));
    let metas: Vec<MetaItemPreview> = (0..30).map(|i| preview(&format!("m{}", i), None)).collect();
    let answer = ContainerAction::AddonResponse(state.groups[0].0.clone(), Ok(ResourceResponse::Metas { metas }));
    let next = state.dispatch(&answer).unwrap();
    assert!(matches!(&next.groups[0].1, Loadable::Ready(v) if v.len() == 25));
    let empty = ContainerAction::AddonResponse(state.groups[0].0.clone(), Ok(ResourceResponse::Metas { metas: vec![] }));
    assert!(matches!(state.dispatch(&empty).unwrap().groups[0].1, Loadable::ReadyEmpty));
    let stale = ContainerAction::AddonResponse(request("https://z/", "catalog", "movie", "top"), Err("x".into()));
    assert!(state.dispatch(&stale).is_none());
}

#[test]
fn filtered_catalog_and_streams() {
    let req = request("https://a/", "catalog", "movie", "top");
    let state = CatalogFiltered::new();
    let loaded = state
        .dispatch(&ContainerAction::LoadWithCtx(vec![catalog_addon()], ContainerLoad::CatalogFiltered { resource_req: req.clone() }))
        .unwrap();
    assert_eq!(loaded.catalogs.len(), 1);
    assert_eq!(loaded.item_pages.len(), 1);
    let answer = ContainerAction::AddonResponse(req.clone(), Err("down".into()));
    let next = loaded.dispatch(&answer).unwrap();
    assert!(matches!(&next.item_pages[0], Loadable::Error(e) if e == "down"));
    assert!(next.dispatch(&answer).is_none());

    let streams = Streams::new()
        .dispatch(&ContainerAction::LoadWithCtx(
            vec![catalog_addon()],
            ContainerLoad::Streams { content_type: "movie".into(), id: "tt1".into() },
        ))
        .unwrap();
    assert_eq!(streams.groups.len(), 1);
    assert_eq!(streams.groups[0].0.path.resource, "stream");
    let answer = ContainerAction::AddonResponse(
        streams.groups[0].0.clone(),
        Ok(ResourceResponse::Metas { metas: vec![] }),
    );
    assert!(matches!(&streams.dispatch(&answer).unwrap().groups[0].1, Loadable::Error(e) if e == "unexpected ResourceResponse"));
}

#[test]
fn conversions_match_the_named_constructors() {
    let yt = Stream { source: StreamSource::YouTube { yt_id: "x".into() }, name: None };
    assert_eq!(ExternalPlayerLink::from(&yt), ExternalPlayerLink::from_stream(&yt));
    let link: String = ErrorLink::from_message("a b").into();
    assert_eq!(link, "stremio:///error?message=a%20b");
    let req = request("https://a/", "catalog", "movie", "top");
    assert_eq!(DiscoverDeepLinks::from(&req).discover, "stremio:///discover/https%3A%2F%2Fa%2F/movie/top?");
    assert_eq!(LibraryDeepLinks::from(&"library".to_string()).library, "stremio:///library");
}

#[test]
fn filled_group_ignores_a_second_answer() {
    let state = CatalogGrouped::new()
        .dispatch(&ContainerAction::LoadWithCtx(vec![catalog_addon()], ContainerLoad::CatalogGrouped { extra: vec![] }))
        .unwrap();
    let answer = ContainerAction::AddonResponse(state.groups[0].0.clone(), Err("down".into()));
    let filled = state.dispatch(&answer).unwrap();
    assert!(filled.dispatch(&answer).is_none());
}
