use stremio_core::addon::{Descriptor, Manifest, ManifestResource, ResourcePath};
use stremio_core::ctx::{Ctx, Profile};
use stremio_core::effects::{Effect, EffectFuture, Task};
use stremio_core::library::{LibraryBucket, LibraryItem, LibraryItemState};
use stremio_core::meta_details::{MetaDetails, Selected};
use stremio_core::msg::{Action, ActionLoad, Internal, Msg};
use stremio_core::resource::{MetaItemBehaviorHints, PosterShape};
use stremio_core::runtime::{Model, Runtime};

fn runtime() -> Runtime {
    let addon = Descriptor {
        transport_url: "https://a/".into(),
        manifest: Manifest {
            id: "a".into(),
            name: "a".into(),
            types: vec!["series".into()],
            resources: vec![ManifestResource { name: "meta".into(), types: None }],
            catalogs: vec![],
        },
    };
    let model = Model {
        ctx: Ctx { profile: Profile { addons: vec![addon] }, library: LibraryBucket { uid: None, items: vec![] } },
        meta_details: MetaDetails::new(),
    };
    Runtime::new(model)
}

fn item(id: &str) -> LibraryItem {
    LibraryItem {
        id: id.into(),
        name: id.into(),
        content_type: "series".into(),
        poster: None,
        poster_shape: PosterShape::Poster,
        removed: false,
        temp: false,
        ctime: None,
        mtime: 0,
        state: LibraryItemState::default(),
        behavior_hints: MetaItemBehaviorHints { default_video_id: None, featured_video_id: None, has_scheduled_videos: false },
    }
}

fn load(id: &str) -> Msg {
    Msg::Action(Action::Load(ActionLoad::MetaDetails(Selected {
        meta_path: ResourcePath {
            resource: "meta".into(),
            content_type: "series".into(),
            id: id.into(),
            extra: vec![],
        },
        stream_path: None,
    })))
}

#[test]
fn unchanged_update_does_not_notify() {
    let mut rt = runtime();
    rt.dispatch(Msg::Action(Action::Unload));
    let step = rt.step().unwrap();
    assert!(!step.has_changed);
    assert!(!step.notify);
    assert!(rt.step().is_none());
}

#[test]
fn changed_update_notifies_once_and_starts_fetches() {
    let mut rt = runtime();
    rt.dispatch(load("tt1"));
    let step = rt.step().unwrap();
    assert!(step.has_changed);
    // the fetch it issued is still pending work
    assert!(!step.notify);
    assert!(step.started.is_empty());
    assert_eq!(rt.queue.len(), 1);
    let step = rt.step().unwrap();
    assert!(!step.has_changed);
    assert!(step.notify);
    assert_eq!(step.started.len(), 1);
    assert!(matches!(&step.started[0], EffectFuture::Concurrent(Task::FetchResource(r)) if r.path.id == "tt1"));
    assert!(!rt.changed);
    assert!(rt.step().is_none());
}

#[test]
fn follow_up_messages_run_first_and_notify_at_the_end() {
    let mut rt = runtime();
    rt.dispatch(Msg::Internal(Internal::UpdateLibraryItem(item("tt1"))));
    rt.dispatch(Msg::Action(Action::Unload));
    let first = rt.step().unwrap();
    assert!(first.has_changed);
    assert!(!first.notify);
    assert!(first.started.is_empty());
    // the follow-up message and the storage write go before the waiting Unload
    assert_eq!(rt.queue.len(), 3);
    assert!(matches!(&rt.queue[0], Effect::Msg(m) if matches!(m.as_ref(), Msg::Internal(Internal::LibraryChanged(false)))));
    assert!(matches!(&rt.queue[2], Effect::Msg(m) if matches!(m.as_ref(), Msg::Action(Action::Unload))));
    let second = rt.step().unwrap();
    assert!(!second.notify);
    let third = rt.step().unwrap();
    assert_eq!(third.started.len(), 1);
    assert!(matches!(third.started[0], EffectFuture::Sequential(Task::PersistLibraryItem(_))));
    assert!(rt.sequential_running);
    let last = rt.step().unwrap();
    assert!(last.notify);
    assert!(rt.step().is_none());
}

#[test]
fn second_sequential_task_waits_for_the_first_message() {
    let mut rt = runtime();
    rt.dispatch(Msg::Internal(Internal::UpdateLibraryItem(item("a"))));
    let mut started = vec![];
    while let Some(s) = rt.step() {
        started.extend(s.started);
    }
    assert_eq!(started.len(), 1);
    rt.dispatch(Msg::Internal(Internal::UpdateLibraryItem(item("b"))));
    while let Some(s) = rt.step() {
        // the first write has not resolved: the second waits
        assert!(s.started.is_empty());
    }
    assert_eq!(rt.sequential.len(), 1);
    rt.resolve_sequential(Msg::Internal(Internal::LibraryChanged(true)));
    let s = rt.step().unwrap();
    assert_eq!(s.started.len(), 1);
    assert!(matches!(&s.started[0], EffectFuture::Sequential(Task::PersistLibraryItem(i)) if i.id == "b"));
}
