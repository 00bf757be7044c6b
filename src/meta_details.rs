use crate::addon::{
    plan_spec, requests_view, AggrRequest, PathView, RequestView, ResourcePath, ResourceRequest,
};
use crate::bitfield8::{bits_of, encoded_of};
use crate::common::{
    resource_result, resources_requested, result_applied, slot_requests, fetches, Loadable,
    ResourceLoadable,
};
use crate::ctx::Ctx;
use crate::effects::{Effect, Effects};
use crate::library::{
    lookup, ranked_watched, ItemView, LibraryBucket, LibraryItem, LibraryItemState, StateView,
};
use crate::msg::{Action, ActionLoad, ActionMetaDetails, Internal, Msg};
use crate::resource::{
    clone_streams, same_streams, streams_view, MetaItem, ResourceResponse, SourceView, Stream,
    VideoView,
};
use crate::watched_bitfield::{first_position, WatchedBitField};
use crate::resource::clone_strings;
use vstd::prelude::*;

verus! {

/// The title (and, optionally, the video whose streams are wanted) that the
/// details view shows.
#[derive(Debug)]
pub struct Selected {
    pub meta_path: ResourcePath,
    pub stream_path: Option<ResourcePath>,
}

pub open spec fn opt_path(p: Option<ResourcePath>) -> Option<PathView> {
    match p {
        Some(x) => Some(x@),
        None => None,
    }
}

impl View for Selected {
    type V = (PathView, Option<PathView>);

    open spec fn view(&self) -> (PathView, Option<PathView>) {
        (self.meta_path@, opt_path(self.stream_path))
    }
}

impl Clone for Selected {
    fn clone(&self) -> (r: Self)
        ensures
            r@ == self@,
    {
        Selected {
            meta_path: self.meta_path.clone(),
            stream_path: match &self.stream_path {
                Some(p) => Some(p.clone()),
                None => None,
            },
        }
    }
}

/// The title details view: the selection, the title's metadata from every
/// provider that serves it, the streams of the selected video, the title's
/// library item, and a watched bitfield per metadata slot.
#[derive(Debug)]
pub struct MetaDetails {
    pub selected: Option<Selected>,
    pub meta_items: Vec<ResourceLoadable<MetaItem>>,
    pub streams: Vec<ResourceLoadable<Vec<Stream>>>,
    pub library_item: Option<LibraryItem>,
    pub watched: Vec<Option<WatchedBitField>>,
}

pub type StreamsView = Seq<(SourceView, Option<Seq<char>>)>;

pub open spec fn selected_view(s: Option<Selected>) -> Option<(PathView, Option<PathView>)> {
    match s {
        Some(x) => Some(x@),
        None => None,
    }
}

pub open spec fn item_view(i: Option<LibraryItem>) -> Option<ItemView> {
    match i {
        Some(x) => Some(x@),
        None => None,
    }
}

/// The slot holds metadata.
pub open spec fn meta_ready(c: Option<Loadable<MetaItem, String>>) -> bool {
    c matches Some(Loadable::Ready(_))
}

/// `p` is the first slot that holds metadata.
pub open spec fn first_ready(metas: Seq<ResourceLoadable<MetaItem>>, p: int) -> bool {
    &&& 0 <= p < metas.len()
    &&& meta_ready(metas[p].content)
    &&& forall|q: int| 0 <= q < p ==> !meta_ready(#[trigger] metas[q].content)
}

/// The metadata of a slot that holds some.
pub open spec fn ready_meta(c: Option<Loadable<MetaItem, String>>) -> MetaItem {
    c->Some_0->Ready_0
}

/// `q` is the first video with id `id` that has streams.
pub open spec fn first_video_with_streams(videos: Seq<VideoView>, id: Seq<char>, q: int) -> bool {
    &&& 0 <= q < videos.len()
    &&& videos[q].id == id
    &&& videos[q].streams.len() > 0
    &&& forall|k: int|
        0 <= k < q ==> !(#[trigger] videos[k].id == id && videos[k].streams.len() > 0)
}

/// The streams that the first metadata to arrive embeds for video `id`, with
/// that metadata's request.
pub open spec fn found_streams(metas: Seq<ResourceLoadable<MetaItem>>, id: Seq<char>) -> Option<
    (RequestView, StreamsView),
> {
    if exists|p: int| first_ready(metas, p) {
        let p = choose|p: int| first_ready(metas, p);
        let videos = ready_meta(metas[p].content)@.videos;
        if exists|q: int| first_video_with_streams(videos, id, q) {
            let q = choose|q: int| first_video_with_streams(videos, id, q);
            Some((metas[p].request@, videos[q].streams))
        } else {
            None
        }
    } else {
        None
    }
}

pub open spec fn stream_content_view(c: Option<Loadable<Vec<Stream>, String>>) -> Option<
    Loadable<StreamsView, Seq<char>>,
> {
    match c {
        Some(Loadable::Loading) => Some(Loadable::Loading),
        Some(Loadable::ReadyEmpty) => Some(Loadable::ReadyEmpty),
        Some(Loadable::Ready(s)) => Some(Loadable::Ready(streams_view(s@))),
        Some(Loadable::Error(e)) => Some(Loadable::Error(e@)),
        None => None,
    }
}

pub open spec fn stream_slots_view(s: Seq<ResourceLoadable<Vec<Stream>>>) -> Seq<
    (RequestView, Option<Loadable<StreamsView, Seq<char>>>),
> {
    s.map_values(
        |x: ResourceLoadable<Vec<Stream>>| (x.request@, stream_content_view(x.content)),
    )
}

/// The video ids of a title, in its own order.
pub open spec fn video_ids(m: MetaItem) -> Seq<Seq<char>> {
    m@.videos.map_values(|v: VideoView| v.id)
}

/// The stored watched text of the library item, if any.
pub open spec fn stored_watched(item: Option<LibraryItem>) -> Option<Seq<char>> {
    match item {
        Some(i) => i@.state.watched,
        None => None,
    }
}

/// `w` is a watched bitfield for slot content `c` given the stored text: none
/// for a slot without metadata; else the title's videos' bitfield, in sort
/// order (see `ranked_watched`).
pub open spec fn watched_fits(
    w: Option<WatchedBitField>,
    c: Option<Loadable<MetaItem, String>>,
    stored: Option<Seq<char>>,
) -> bool {
    if !meta_ready(c) {
        w is None
    } else {
        w matches Some(x) && ranked_watched(x, ready_meta(c).videos@, stored)
    }
}

/// Every slot's watched bitfield fits it.
pub open spec fn all_watched_fit(
    w: Seq<Option<WatchedBitField>>,
    metas: Seq<ResourceLoadable<MetaItem>>,
    stored: Option<Seq<char>>,
) -> bool {
    w.len() == metas.len() && forall|i: int|
        0 <= i < w.len() ==> watched_fits(#[trigger] w[i], metas[i].content, stored)
}

pub open spec fn watched_view(w: Seq<Option<WatchedBitField>>) -> Seq<
    Option<(Seq<Seq<char>>, usize, Seq<u8>)>,
> {
    w.map_values(
        |o: Option<WatchedBitField>|
            match o {
                Some(x) => Some((x.ids(), x.bitfield.length, x.bitfield.values@)),
                None => None,
            },
    )
}

/// Slots after a planning pass: unchanged when they already hold exactly the
/// planned requests, else one loading slot per planned request.
pub open spec fn planned<T>(
    next: Seq<ResourceLoadable<T>>,
    prev: Seq<ResourceLoadable<T>>,
    plan: Seq<RequestView>,
) -> bool {
    if slot_requests(prev) == plan {
        next == prev
    } else {
        &&& slot_requests(next) == plan
        &&& forall|i: int|
            0 <= i < next.len() ==> #[trigger] next[i].content == Some(
                Loadable::<T, String>::Loading,
            )
    }
}

/// The effects of a planning pass: a fetch per planned request when the plan
/// changed the slots, none otherwise.
pub open spec fn planned_fetches<T>(
    e: Seq<Effect>,
    prev: Seq<ResourceLoadable<T>>,
    plan: Seq<RequestView>,
) -> bool {
    if slot_requests(prev) == plan {
        e.len() == 0
    } else {
        e.len() == plan.len() && forall|i: int| 0 <= i < e.len() ==> fetches(#[trigger] e[i], plan[i])
    }
}

pub open spec fn meta_resource() -> Seq<char> {
    seq!['m', 'e', 't', 'a']
}

pub open spec fn stream_resource() -> Seq<char> {
    seq!['s', 't', 'r', 'e', 'a', 'm']
}

pub open spec fn unexpected_response() -> Seq<char> {
    "unexpected ResourceResponse"@
}

/// `r` is what a provider's answer gives a metadata slot.
pub open spec fn meta_result_of(
    r: Result<MetaItem, String>,
    answer: Result<ResourceResponse, String>,
) -> bool {
    match answer {
        Ok(ResourceResponse::Meta { meta }) => r matches Ok(m) && m@ == meta@,
        Ok(_) => r matches Err(e) && e@ == unexpected_response(),
        Err(e) => r matches Err(x) && x@ == e@,
    }
}

/// `r` is what a provider's answer gives a streams slot.
pub open spec fn streams_result_of(
    r: Result<Vec<Stream>, String>,
    answer: Result<ResourceResponse, String>,
) -> bool {
    match answer {
        Ok(ResourceResponse::Streams { streams }) => r matches Ok(s) && streams_view(s@)
            == streams_view(streams@),
        Ok(_) => r matches Err(e) && e@ == unexpected_response(),
        Err(e) => r matches Err(x) && x@ == e@,
    }
}

/// The streams after a metadata change while video `id` is selected: the
/// embedded ones as a single ready slot when the metadata has them.
pub open spec fn streams_follow_meta(
    next: Seq<ResourceLoadable<Vec<Stream>>>,
    prev: Seq<ResourceLoadable<Vec<Stream>>>,
    metas: Seq<ResourceLoadable<MetaItem>>,
    id: Seq<char>,
) -> bool {
    match found_streams(metas, id) {
        Some((req, streams)) => stream_slots_view(next) == seq![
            (req, Some(Loadable::<StreamsView, Seq<char>>::Ready(streams))),
        ],
        None => next == prev,
    }
}

fn is_resource(request: &ResourceRequest, name: &str) -> (r: bool)
    ensures
        r == (request.path.resource@ == name@),
{
    let n = name.to_owned();
    request.path.resource == n
}

/// The embedded streams of video `video_id` in the first metadata to arrive.
pub fn streams_from_meta_items(meta_items: &Vec<ResourceLoadable<MetaItem>>, video_id: &String) -> (r:
    Option<ResourceLoadable<Vec<Stream>>>)
    ensures
        match r {
            Some(slot) => found_streams(meta_items@, video_id@) == Some(
                (slot.request@, streams_view(slot.content->Some_0->Ready_0@)),
            ) && slot.content matches Some(Loadable::Ready(_)),
            None => found_streams(meta_items@, video_id@) is None,
        },
{
    let mut p: usize = 0;
    while p < meta_items.len()
        invariant
            p <= meta_items.len(),
            forall|q: int| 0 <= q < p ==> !meta_ready(#[trigger] meta_items@[q].content),
        decreases meta_items.len() - p,
    {
        match &meta_items[p].content {
            Some(Loadable::Ready(meta)) => {
                let ghost metas = meta_items@;
                assert(first_ready(metas, p as int));
                assert forall|x: int| first_ready(metas, x) implies x == p by {
                    if x > p {
                        assert(!meta_ready(metas[p as int].content));
                    }
                }
                let ghost videos = meta@.videos;
                let mut q: usize = 0;
                while q < meta.videos.len()
                    invariant
                        q <= meta.videos.len(),
                        p < meta_items.len(),
                        metas == meta_items@,
                        first_ready(metas, p as int),
                        forall|x: int| first_ready(metas, x) ==> x == p,
                        ready_meta(metas[p as int].content) == *meta,
                        videos == meta@.videos,
                        forall|k: int|
                            0 <= k < q ==> !(#[trigger] videos[k].id == video_id@
                                && videos[k].streams.len() > 0),
                    decreases meta.videos.len() - q,
                {
                    let v = &meta.videos[q];
                    if v.id == *video_id && v.streams.len() > 0 {
                        assert(videos[q as int] == v@);
                        assert(first_video_with_streams(videos, video_id@, q as int));
                        assert forall|x: int|
                            first_video_with_streams(videos, video_id@, x) implies x == q by {
                            if x > q {
                                assert(videos[q as int].id == video_id@);
                            }
                        }
                        return Some(
                            ResourceLoadable {
                                request: meta_items[p].request.clone(),
                                content: Some(Loadable::Ready(clone_streams(&v.streams))),
                            },
                        );
                    }
                    assert(videos[q as int] == v@);
                    q = q + 1;
                }
                return None;
            },
            _ => {},
        }
        p = p + 1;
    }
    assert forall|x: int| !first_ready(meta_items@, x) by {
        if first_ready(meta_items@, x) {
            assert(meta_ready(meta_items@[x].content));
        }
    }
    None
}

fn same_stream_slots(a: &Vec<ResourceLoadable<Vec<Stream>>>, b: &Vec<ResourceLoadable<Vec<Stream>>>) -> (r:
    bool)
    ensures
        r == (stream_slots_view(a@) == stream_slots_view(b@)),
{
    if a.len() != b.len() {
        assert(stream_slots_view(a@).len() != stream_slots_view(b@).len());
        return false;
    }
    let mut i: usize = 0;
    while i < a.len()
        invariant
            a.len() == b.len(),
            i <= a.len(),
            forall|k: int|
                0 <= k < i ==> #[trigger] stream_slots_view(a@)[k] == stream_slots_view(b@)[k],
        decreases a.len() - i,
    {
        let same = a[i].request == b[i].request && match (&a[i].content, &b[i].content) {
            (Some(Loadable::Loading), Some(Loadable::Loading)) => true,
            (Some(Loadable::ReadyEmpty), Some(Loadable::ReadyEmpty)) => true,
            (Some(Loadable::Ready(x)), Some(Loadable::Ready(y))) => same_streams(x, y),
            (Some(Loadable::Error(x)), Some(Loadable::Error(y))) => *x == *y,
            (None, None) => true,
            _ => false,
        };
        if !same {
            assert(stream_slots_view(a@)[i as int] != stream_slots_view(b@)[i as int]);
            return false;
        }
        i = i + 1;
    }
    assert(stream_slots_view(a@) =~= stream_slots_view(b@));
    true
}

/// Sets the streams to `next`, reporting whether they changed.
fn streams_set(
    streams: &mut Vec<ResourceLoadable<Vec<Stream>>>,
    next: Vec<ResourceLoadable<Vec<Stream>>>,
) -> (r: Effects)
    ensures
        stream_slots_view(final(streams)@) == stream_slots_view(next@),
        r.has_changed == (stream_slots_view(next@) != stream_slots_view(old(streams)@)),
        !r.has_changed ==> final(streams)@ == old(streams)@,
        r.effects@.len() == 0,
{
    if same_stream_slots(streams, &next) {
        Effects { effects: Vec::new(), has_changed: false }
    } else {
        *streams = next;
        Effects { effects: Vec::new(), has_changed: true }
    }
}

fn same_selected(a: &Option<Selected>, b: &Option<Selected>) -> (r: bool)
    ensures
        r == (selected_view(*a) == selected_view(*b)),
{
    match (a, b) {
        (Some(x), Some(y)) => x.meta_path == y.meta_path && match (
            &x.stream_path,
            &y.stream_path,
        ) {
            (Some(p), Some(q)) => *p == *q,
            (None, None) => true,
            _ => false,
        },
        (None, None) => true,
        _ => false,
    }
}

/// Sets the selection, reporting whether it changed.
fn selected_set(selected: &mut Option<Selected>, next: Option<Selected>) -> (r: Effects)
    ensures
        selected_view(*final(selected)) == selected_view(next),
        r.has_changed == (selected_view(next) != selected_view(*old(selected))),
        !r.has_changed ==> *final(selected) == *old(selected),
        r.effects@.len() == 0,
{
    if same_selected(selected, &next) {
        Effects { effects: Vec::new(), has_changed: false }
    } else {
        *selected = next;
        Effects { effects: Vec::new(), has_changed: true }
    }
}

fn same_item(a: &Option<LibraryItem>, b: &Option<LibraryItem>) -> (r: bool)
    ensures
        r == (item_view(*a) == item_view(*b)),
{
    match (a, b) {
        (Some(x), Some(y)) => *x == *y,
        (None, None) => true,
        _ => false,
    }
}

/// Sets the library item to the one the library holds for the selected title.
fn library_item_update(
    library_item: &mut Option<LibraryItem>,
    selected: &Option<Selected>,
    library: &LibraryBucket,
) -> (r: Effects)
    ensures
        item_view(*final(library_item)) == match selected {
            Some(s) => lookup(library.items@, s.meta_path.id@),
            None => None,
        },
        r.has_changed == (item_view(*final(library_item)) != item_view(*old(library_item))),
        !r.has_changed ==> *final(library_item) == *old(library_item),
        r.effects@.len() == 0,
{
    let next = match selected {
        Some(s) => library.get(&s.meta_path.id),
        None => None,
    };
    if same_item(library_item, &next) {
        Effects { effects: Vec::new(), has_changed: false }
    } else {
        *library_item = next;
        Effects { effects: Vec::new(), has_changed: true }
    }
}

fn same_ids(a: &Vec<String>, b: &Vec<String>) -> (r: bool)
    ensures
        r == (crate::watched_bitfield::ids_view(a@) == crate::watched_bitfield::ids_view(b@)),
{
    if a.len() != b.len() {
        assert(crate::watched_bitfield::ids_view(a@).len() != crate::watched_bitfield::ids_view(
            b@,
        ).len());
        return false;
    }
    let mut i: usize = 0;
    while i < a.len()
        invariant
            a.len() == b.len(),
            i <= a.len(),
            forall|k: int| 0 <= k < i ==> #[trigger] a@[k]@ == b@[k]@,
        decreases a.len() - i,
    {
        if a[i] != b[i] {
            assert(crate::watched_bitfield::ids_view(a@)[i as int]
                != crate::watched_bitfield::ids_view(b@)[i as int]);
            return false;
        }
        i = i + 1;
    }
    assert(crate::watched_bitfield::ids_view(a@) =~= crate::watched_bitfield::ids_view(b@));
    true
}

fn same_bytes(a: &Vec<u8>, b: &Vec<u8>) -> (r: bool)
    ensures
        r == (a@ == b@),
{
    if a.len() != b.len() {
        return false;
    }
    let mut i: usize = 0;
    while i < a.len()
        invariant
            a.len() == b.len(),
            i <= a.len(),
            forall|k: int| 0 <= k < i ==> a@[k] == b@[k],
        decreases a.len() - i,
    {
        if a[i] != b[i] {
            return false;
        }
        i = i + 1;
    }
    assert(a@ =~= b@);
    true
}

fn same_watched(a: &Vec<Option<WatchedBitField>>, b: &Vec<Option<WatchedBitField>>) -> (r: bool)
    ensures
        r == (watched_view(a@) == watched_view(b@)),
{
    if a.len() != b.len() {
        assert(watched_view(a@).len() != watched_view(b@).len());
        return false;
    }
    let mut i: usize = 0;
    while i < a.len()
        invariant
            a.len() == b.len(),
            i <= a.len(),
            forall|k: int| 0 <= k < i ==> #[trigger] watched_view(a@)[k] == watched_view(b@)[k],
        decreases a.len() - i,
    {
        let same = match (&a[i], &b[i]) {
            (Some(x), Some(y)) => same_ids(&x.video_ids, &y.video_ids) && x.bitfield.length
                == y.bitfield.length && same_bytes(&x.bitfield.values, &y.bitfield.values),
            (None, None) => true,
            _ => false,
        };
        if !same {
            assert(watched_view(a@)[i as int] != watched_view(b@)[i as int]);
            return false;
        }
        i = i + 1;
    }
    assert(watched_view(a@) =~= watched_view(b@));
    true
}

/// The watched bitfield of one metadata slot.
fn watched_for(c: &Option<Loadable<MetaItem, String>>, library_item: &Option<LibraryItem>) -> (r:
    Option<WatchedBitField>)
    ensures
        watched_fits(r, *c, stored_watched(*library_item)),
{
    match c {
        Some(Loadable::Ready(meta)) => match library_item {
            Some(item) => Some(item.state.watched_bitfield(&meta.videos)),
            None => Some(LibraryItemState::new().watched_bitfield(&meta.videos)),
        },
        _ => None,
    }
}

proof fn lemma_fits_by_view(
    a: Option<WatchedBitField>,
    b: Option<WatchedBitField>,
    c: Option<Loadable<MetaItem, String>>,
    stored: Option<Seq<char>>,
)
    requires
        watched_view(seq![a])[0] == watched_view(seq![b])[0],
        watched_fits(b, c, stored),
    ensures
        watched_fits(a, c, stored),
{
    match (a, b) {
        (Some(x), Some(y)) => {
            assert(x.ids() == y.ids());
            assert(x.bitfield.values@ == y.bitfield.values@);
            assert(x.bits() == y.bits());
        },
        _ => {},
    }
}

/// Recomputes the watched bitfields from the metadata slots and the library
/// item, reporting whether they changed.
fn watched_update(
    watched: &mut Vec<Option<WatchedBitField>>,
    meta_items: &Vec<ResourceLoadable<MetaItem>>,
    library_item: &Option<LibraryItem>,
) -> (r: Effects)
    ensures
        all_watched_fit(final(watched)@, meta_items@, stored_watched(*library_item)),
        r.has_changed == (watched_view(final(watched)@) != watched_view(old(watched)@)),
        !r.has_changed ==> final(watched)@ == old(watched)@,
        r.effects@.len() == 0,
{
    let mut next: Vec<Option<WatchedBitField>> = Vec::new();
    let mut i: usize = 0;
    while i < meta_items.len()
        invariant
            i <= meta_items.len(),
            next.len() == i,
            forall|k: int|
                0 <= k < i ==> watched_fits(
                    #[trigger] next@[k],
                    meta_items@[k].content,
                    stored_watched(*library_item),
                ),
        decreases meta_items.len() - i,
    {
        next.push(watched_for(&meta_items[i].content, library_item));
        i = i + 1;
    }
    if same_watched(watched, &next) {
        assert forall|k: int| 0 <= k < watched@.len() implies watched_fits(
            #[trigger] watched@[k],
            meta_items@[k].content,
            stored_watched(*library_item),
        ) by {
            assert(watched_view(watched@).len() == watched@.len());
            assert(watched_view(next@).len() == next@.len());
            assert(k < next@.len());
            assert(watched_view(watched@)[k] == watched_view(next@)[k]);
            assert(watched_view(seq![watched@[k]])[0] == watched_view(watched@)[k]);
            assert(watched_view(seq![next@[k]])[0] == watched_view(next@)[k]);
            lemma_fits_by_view(watched@[k], next@[k], meta_items@[k].content, stored_watched(*library_item));
        }
        assert(watched_view(watched@).len() == watched_view(next@).len());
        Effects { effects: Vec::new(), has_changed: false }
    } else {
        *watched = next;
        Effects { effects: Vec::new(), has_changed: true }
    }
}

fn meta_result(answer: &Result<ResourceResponse, String>) -> (r: Result<MetaItem, String>)
    ensures
        meta_result_of(r, *answer),
{
    match answer {
        Ok(ResourceResponse::Meta { meta }) => Ok(meta.clone()),
        Ok(_) => {
            let e = String::from_str("unexpected ResourceResponse");
            Err(e)
        },
        Err(e) => Err(e.clone()),
    }
}

fn streams_result(answer: &Result<ResourceResponse, String>) -> (r: Result<Vec<Stream>, String>)
    ensures
        streams_result_of(r, *answer),
{
    match answer {
        Ok(ResourceResponse::Streams { streams }) => Ok(clone_streams(streams)),
        Ok(_) => {
            let e = String::from_str("unexpected ResourceResponse");
            Err(e)
        },
        Err(e) => Err(e.clone()),
    }
}

/// What marking video `id` as `val` asks the library to store: the item with
/// its watched text replaced by that of the bitfield with the mark applied.
pub open spec fn marked(effects: Seq<Effect>, item: LibraryItem, w: WatchedBitField, id: Seq<char>, val: bool) -> bool {
    effects.len() <= 1 && (effects.len() == 1 ==> match effects[0] {
        Effect::Msg(m) => match *m {
            Msg::Internal(Internal::UpdateLibraryItem(x)) => exists|nw: WatchedBitField| {
                &&& nw.wf()
                &&& nw.ids() == w.ids()
                &&& forall|p: int| #[trigger] first_position(w.ids(), id, p) ==> nw.bits() == w.bits().update(p, val)
                &&& !crate::watched_bitfield::listed(w.ids(), id) ==> nw.bits() == w.bits()
                &&& x@ == ItemView {
                    state: StateView { watched: Some(encoded_of(nw.bitfield.values@)), ..item@.state },
                    ..item@
                }
            },
            _ => false,
        },
        _ => false,
    })
}

/// The slot `p` holds the first metadata to arrive and has a watched bitfield.
pub open spec fn marking_slot(m: MetaDetails, p: int) -> bool {
    first_ready(m.meta_items@, p) && p < m.watched@.len() && m.watched@[p] is Some
}

/// After loading `sel`: the selection is `sel`; the metadata slots follow the
/// plan over the providers; the streams are those embedded in the metadata
/// for the selected video, else planned over the providers, else none; the
/// library item is the library's; the watched bitfields fit; effects fetch
/// what was newly planned; the change flag says whether any part changed.
pub open spec fn load_post(old: MetaDetails, new: MetaDetails, sel: Selected, ctx: Ctx, r: Effects) -> bool {
    let meta_plan = plan_spec(AggrRequest::AllOfResource(sel.meta_path), ctx.profile.addons@);
    &&& selected_view(new.selected) == Some(sel@)
    &&& planned(new.meta_items@, old.meta_items@, meta_plan)
    &&& match sel.stream_path {
        None => new.streams@.len() == 0 && planned_fetches(r.effects@, old.meta_items@, meta_plan),
        Some(sp) => match found_streams(new.meta_items@, sp.id@) {
            Some((req, st)) => stream_slots_view(new.streams@) == seq![
                (req, Some(Loadable::<StreamsView, Seq<char>>::Ready(st))),
            ] && planned_fetches(r.effects@, old.meta_items@, meta_plan),
            None => {
                let stream_plan = plan_spec(AggrRequest::AllOfResource(sp), ctx.profile.addons@);
                &&& planned(new.streams@, old.streams@, stream_plan)
                &&& exists|e1: Seq<Effect>, e2: Seq<Effect>| r.effects@ == e1 + e2
                    && planned_fetches(e1, old.meta_items@, meta_plan)
                    && planned_fetches(e2, old.streams@, stream_plan)
            },
        },
    }
    &&& item_view(new.library_item) == lookup(ctx.library.items@, sel.meta_path.id@)
    &&& all_watched_fit(new.watched@, new.meta_items@, stored_watched(new.library_item))
    &&& r.has_changed == (selected_view(new.selected) != selected_view(old.selected)
        || new.meta_items@ != old.meta_items@
        || stream_slots_view(new.streams@) != stream_slots_view(old.streams@)
        || item_view(new.library_item) != item_view(old.library_item)
        || watched_view(new.watched@) != watched_view(old.watched@))
}

/// After unloading: everything is cleared; changed when anything was there.
pub open spec fn unload_post(old: MetaDetails, new: MetaDetails, r: Effects) -> bool {
    &&& new.selected is None
    &&& new.meta_items@.len() == 0
    &&& new.streams@.len() == 0
    &&& new.library_item is None
    &&& new.watched@.len() == 0
    &&& r.effects@.len() == 0
    &&& r.has_changed == (old.selected is Some || old.meta_items@.len() > 0
        || old.streams@.len() > 0 || old.library_item is Some
        || old.watched@.len() > 0)
}

/// After marking video `id`: the view is untouched and reports no change; with
/// a library item and a watched bitfield for the first metadata, exactly one
/// effect asks the library to store the marked item, else there is none.
pub open spec fn mark_post(old: MetaDetails, new: MetaDetails, id: Seq<char>, val: bool, r: Effects) -> bool {
    &&& new == old
    &&& !r.has_changed
    &&& (old.library_item is None || !(exists|p: int| marking_slot(old, p))) ==> r.effects@.len() == 0
    &&& forall|p: int| #[trigger] marking_slot(old, p) && old.library_item is Some
        ==> r.effects@.len() == 1 && marked(r.effects@, old.library_item->Some_0, old.watched@[p]->Some_0, id, val)
}

/// After a metadata result: the slots take it; a stale one changes nothing;
/// otherwise the embedded streams of the selected video and the watched
/// bitfields follow the new metadata.
pub open spec fn meta_result_post(
    old: MetaDetails,
    new: MetaDetails,
    req: ResourceRequest,
    answer: Result<ResourceResponse, String>,
    r: Effects,
) -> bool {
    &&& r.effects@.len() == 0
    &&& exists|res: Result<MetaItem, String>| meta_result_of(res, answer)
        && new.meta_items@ == result_applied(old.meta_items@, req@, res)
    &&& !slot_requests(old.meta_items@).contains(req@) ==> new == old
    &&& new.meta_items@ == old.meta_items@ ==> (new == old && !r.has_changed)
    &&& new.meta_items@ != old.meta_items@ ==> {
        &&& r.has_changed
        &&& new.selected == old.selected
        &&& new.library_item == old.library_item
        &&& match old.selected {
            Some(Selected { stream_path: Some(sp), .. }) => streams_follow_meta(
                new.streams@, old.streams@, new.meta_items@, sp.id@),
            _ => new.streams == old.streams,
        }
        &&& all_watched_fit(new.watched@, new.meta_items@, stored_watched(new.library_item))
    }
}

/// After a streams result: only the streams slots change, by taking it.
pub open spec fn stream_result_post(
    old: MetaDetails,
    new: MetaDetails,
    req: ResourceRequest,
    answer: Result<ResourceResponse, String>,
    r: Effects,
) -> bool {
    &&& r.effects@.len() == 0
    &&& exists|res: Result<Vec<Stream>, String>| streams_result_of(res, answer)
        && new.streams@ == result_applied(old.streams@, req@, res)
    &&& new.selected == old.selected
    &&& new.meta_items == old.meta_items
    &&& new.library_item == old.library_item
    &&& new.watched == old.watched
    &&& r.has_changed == (new.streams@ != old.streams@)
}

/// After the library changed: the item and the watched bitfields follow it.
pub open spec fn library_post(old: MetaDetails, new: MetaDetails, ctx: Ctx, r: Effects) -> bool {
    &&& item_view(new.library_item) == match old.selected {
        Some(s) => lookup(ctx.library.items@, s.meta_path.id@),
        None => None,
    }
    &&& all_watched_fit(new.watched@, new.meta_items@, stored_watched(new.library_item))
    &&& new.selected == old.selected
    &&& new.meta_items == old.meta_items
    &&& new.streams == old.streams
    &&& r.effects@.len() == 0
    &&& r.has_changed == (item_view(new.library_item) != item_view(old.library_item)
        || watched_view(new.watched@) != watched_view(old.watched@))
}

/// What a message does to the view, part by part (see each `_post`).
pub open spec fn meta_updated(old: MetaDetails, new: MetaDetails, msg: Msg, ctx: Ctx, r: Effects) -> bool {
    match msg {
        Msg::Action(Action::Load(ActionLoad::MetaDetails(sel))) => load_post(old, new, sel, ctx, r),
        Msg::Action(Action::Unload) => unload_post(old, new, r),
        Msg::Action(Action::MetaDetails(ActionMetaDetails::MarkAsWatched(id, val))) => mark_post(old, new, id@, val, r),
        Msg::Internal(Internal::ResourceRequestResult(req, answer)) => {
            &&& req.path.resource@ == meta_resource() ==> meta_result_post(old, new, req, answer, r)
            &&& req.path.resource@ == stream_resource() ==> stream_result_post(old, new, req, answer, r)
            &&& req.path.resource@ != meta_resource() && req.path.resource@ != stream_resource()
                ==> new == old && !r.has_changed && r.effects@.len() == 0
        },
        Msg::Internal(Internal::LibraryChanged(_)) => library_post(old, new, ctx, r),
        _ => new == old && !r.has_changed && r.effects@.len() == 0,
    }
}

/// Staleness: after loading a selection, a metadata result for a request
/// that the selection's plan does not hold (one of an earlier selection)
/// leaves the whole view as it was and reports no change.
pub proof fn lemma_stale_after_reload(
    start: MetaDetails,
    loaded: MetaDetails,
    after: MetaDetails,
    sel: Selected,
    ctx: Ctx,
    load_effects: Effects,
    req: ResourceRequest,
    answer: Result<ResourceResponse, String>,
    result_effects: Effects,
)
    requires
        load_post(start, loaded, sel, ctx, load_effects),
        !plan_spec(AggrRequest::AllOfResource(sel.meta_path), ctx.profile.addons@).contains(req@),
        meta_result_post(loaded, after, req, answer, result_effects),
    ensures
        after == loaded,
        !result_effects.has_changed,
{
    let plan = plan_spec(AggrRequest::AllOfResource(sel.meta_path), ctx.profile.addons@);
    assert(slot_requests(loaded.meta_items@) == plan);
}

impl MetaDetails {
    /// Every watched bitfield has one bit per video.
    pub open spec fn wf(&self) -> bool {
        forall|i: int| 0 <= i < self.watched@.len() ==> (#[trigger] self.watched@[i] matches Some(w) ==> w.wf())
    }

    /// A view with nothing selected.
    pub fn new() -> (r: MetaDetails)
        ensures
            r.wf(),
            r.selected is None,
            r.meta_items@.len() == 0,
            r.streams@.len() == 0,
            r.library_item is None,
            r.watched@.len() == 0,
    {
        MetaDetails {
            selected: None,
            meta_items: Vec::new(),
            streams: Vec::new(),
            library_item: None,
            watched: Vec::new(),
        }
    }

    /// Applies one message to the view.
    pub fn update(&mut self, msg: &Msg, ctx: &Ctx) -> (r: Effects)
        requires
            old(self).wf(),
        ensures
            final(self).wf(),
            meta_updated(*old(self), *final(self), *msg, *ctx, r),
    {
        match msg {
            Msg::Action(Action::Load(ActionLoad::MetaDetails(selected))) => self.load(selected, ctx),
            Msg::Action(Action::Unload) => self.unload(),
            Msg::Action(Action::MetaDetails(ActionMetaDetails::MarkAsWatched(video_id, is_watched))) => {
                self.mark_as_watched(video_id, *is_watched)
            },
            Msg::Internal(Internal::ResourceRequestResult(request, answer)) => {
                if is_resource(request, "meta") {
                    proof {
                        reveal_strlit("meta");
                        assert("meta"@ =~= meta_resource());
                        assert(meta_resource() != stream_resource());
                    }
                    self.meta_result_arrived(request, answer)
                } else if is_resource(request, "stream") {
                    proof {
                        reveal_strlit("stream");
                        assert("stream"@ =~= stream_resource());
                    }
                    let res = streams_result(answer);
                    let ghost r0 = res;
                    let e = resource_result(&mut self.streams, request, res);
                    assert(streams_result_of(r0, *answer) && self.streams@ == result_applied(old(self).streams@, request@, r0));
                    e
                } else {
                    proof {
                        reveal_strlit("meta");
                        reveal_strlit("stream");
                        assert("meta"@ =~= meta_resource());
                        assert("stream"@ =~= stream_resource());
                    }
                    Effects { effects: Vec::new(), has_changed: false }
                }
            },
            Msg::Internal(Internal::LibraryChanged(_)) => {
                let lib_e = library_item_update(&mut self.library_item, &self.selected, &ctx.library);
                let w_e = watched_update(&mut self.watched, &self.meta_items, &self.library_item);
                lib_e.join(w_e)
            },
            _ => Effects { effects: Vec::new(), has_changed: false },
        }
    }
    fn load(&mut self, selected: &Selected, ctx: &Ctx) -> (r: Effects)
        requires
            old(self).wf(),
        ensures
            final(self).wf(),
            load_post(*old(self), *final(self), *selected, *ctx, r),
    {
        let ghost old_self = *self;
        let sel_e = selected_set(&mut self.selected, Some(selected.clone()));
        let meta_path = selected.meta_path.clone();
        let ghost mp = meta_path;
        let meta_request = AggrRequest::AllOfResource(meta_path);
        let meta_plan = meta_request.plan(&ctx.profile.addons);
        proof {
            crate::addon::lemma_plan_path_view(mp, selected.meta_path, ctx.profile.addons@);
        }
        let meta_e = resources_requested(&mut self.meta_items, meta_plan);
        let streams_e = match &selected.stream_path {
            Some(sp) => match streams_from_meta_items(&self.meta_items, &sp.id) {
                Some(slot) => {
                    let mut next: Vec<ResourceLoadable<Vec<Stream>>> = Vec::new();
                    next.push(slot);
                    assert(stream_slots_view(next@) =~= seq![(slot.request@, stream_content_view(slot.content))]);
                    streams_set(&mut self.streams, next)
                },
                None => {
                    let stream_path = sp.clone();
                    let ghost spg = stream_path;
                    let stream_request = AggrRequest::AllOfResource(stream_path);
                    let stream_plan = stream_request.plan(&ctx.profile.addons);
                    proof {
                        crate::addon::lemma_plan_path_view(spg, *sp, ctx.profile.addons@);
                    }
                    resources_requested(&mut self.streams, stream_plan)
                },
            },
            None => streams_set(&mut self.streams, Vec::new()),
        };
        let lib_e = library_item_update(&mut self.library_item, &self.selected, &ctx.library);
        let w_e = watched_update(&mut self.watched, &self.meta_items, &self.library_item);
        let ghost e1 = meta_e.effects@;
        let ghost e2 = streams_e.effects@;
        let r = sel_e.join(meta_e).join(streams_e).join(lib_e).join(w_e);
        assert(r.effects@ =~= e1 + e2);
        proof {
            let new = *self;
            let meta_plan = plan_spec(AggrRequest::AllOfResource(selected.meta_path), ctx.profile.addons@);
            assert(planned(new.meta_items@, old_self.meta_items@, meta_plan));
            if slot_requests(new.streams@) != slot_requests(old_self.streams@) {
                assert(stream_slots_view(new.streams@) != stream_slots_view(old_self.streams@)) by {
                    if stream_slots_view(new.streams@) == stream_slots_view(old_self.streams@) {
                        assert(stream_slots_view(new.streams@).len() == new.streams@.len());
                        assert(stream_slots_view(old_self.streams@).len() == old_self.streams@.len());
                        assert(slot_requests(new.streams@) =~= slot_requests(old_self.streams@)) by {
                            assert forall|k: int| 0 <= k < new.streams@.len() implies slot_requests(new.streams@)[k] == slot_requests(old_self.streams@)[k] by {
                                assert(stream_slots_view(new.streams@)[k] == stream_slots_view(old_self.streams@)[k]);
                            }
                        }
                    }
                }
            }
            if slot_requests(new.meta_items@) != slot_requests(old_self.meta_items@) {
                assert(new.meta_items@ != old_self.meta_items@);
            }
            assert(e1 + Seq::<Effect>::empty() =~= e1);
            assert(item_view(new.library_item) == lookup(ctx.library.items@, selected.meta_path.id@));
            assert(all_watched_fit(new.watched@, new.meta_items@, stored_watched(new.library_item)));
            assert(selected_view(new.selected) == Some(selected@));
            match &selected.stream_path {
                None => {
                    assert(stream_slots_view(new.streams@).len() == new.streams@.len());
                    assert(new.streams@.len() == 0);
                    assert(planned_fetches(r.effects@, old_self.meta_items@, meta_plan));
                },
                Some(sp) => {
                    match found_streams(new.meta_items@, sp.id@) {
                        Some((req, st)) => {
                            assert(stream_slots_view(new.streams@) == seq![
                                (req, Some(Loadable::<StreamsView, Seq<char>>::Ready(st))),
                            ]);
                            assert(planned_fetches(r.effects@, old_self.meta_items@, meta_plan));
                        },
                        None => {
                            let stream_plan = plan_spec(AggrRequest::AllOfResource(*sp), ctx.profile.addons@);
                            assert(planned(new.streams@, old_self.streams@, stream_plan));
                            assert(planned_fetches(e1, old_self.meta_items@, meta_plan));
                            assert(planned_fetches(e2, old_self.streams@, stream_plan));
                        },
                    }
                },
            }
            assert(r.has_changed == (selected_view(new.selected) != selected_view(old_self.selected)
                || new.meta_items@ != old_self.meta_items@
                || stream_slots_view(new.streams@) != stream_slots_view(old_self.streams@)
                || item_view(new.library_item) != item_view(old_self.library_item)
                || watched_view(new.watched@) != watched_view(old_self.watched@)));
        }
        r
    }

    fn unload(&mut self) -> (r: Effects)
        ensures
            final(self).wf(),
            unload_post(*old(self), *final(self), r),
    {
        let changed = self.selected.is_some() || self.meta_items.len() > 0 || self.streams.len() > 0
            || self.library_item.is_some() || self.watched.len() > 0;
        self.selected = None;
        self.meta_items = Vec::new();
        self.streams = Vec::new();
        self.library_item = None;
        self.watched = Vec::new();
        Effects { effects: Vec::new(), has_changed: changed }
    }

    fn mark_as_watched(&self, video_id: &String, is_watched: bool) -> (r: Effects)
        requires
            self.wf(),
        ensures
            mark_post(*self, *self, video_id@, is_watched, r),
    {
        let mut p: usize = 0;
        while p < self.meta_items.len()
            invariant
                p <= self.meta_items.len(),
                self.wf(),
                forall|q: int| 0 <= q < p ==> !meta_ready(#[trigger] self.meta_items@[q].content),
            decreases self.meta_items.len() - p,
        {
            if matches!(&self.meta_items[p].content, Some(Loadable::Ready(_))) {
                assert(first_ready(self.meta_items@, p as int));
                assert forall|x: int| #[trigger] marking_slot(*self, x) implies x == p by {
                    if x > p {
                        assert(!meta_ready(self.meta_items@[p as int].content));
                    }
                }
                if p < self.watched.len() {
                    match (&self.library_item, &self.watched[p]) {
                        (Some(item), Some(w)) => {
                            assert(w.wf());
                            let mut item = item.clone();
                            let mut w2 = WatchedBitField { bitfield: w.bitfield.duplicate(), video_ids: clone_strings(&w.video_ids) };
                            assert(w2.ids() =~= w.ids());
                            w2.set_video(video_id.as_str(), is_watched);
                            let text = w2.encode();
                            let ghost before = item@;
                            item.state.watched = Some(text);
                            assert(item@ == ItemView {
                                state: StateView { watched: Some(encoded_of(w2.bitfield.values@)), ..before.state },
                                ..before
                            });
                            let ghost iv = item@;
                            let r = Effects::msg(Msg::Internal(Internal::UpdateLibraryItem(item))).unchanged();
                            assert(r.effects@[0] == Effect::Msg(Box::new(Msg::Internal(Internal::UpdateLibraryItem(item)))));
                            assert(w2.wf() && w2.ids() == w.ids()
                                && (forall|q: int| #[trigger] first_position(w.ids(), video_id@, q) ==> w2.bits() == w.bits().update(q, is_watched))
                                && (!crate::watched_bitfield::listed(w.ids(), video_id@) ==> w2.bits() == w.bits())
                                && iv == ItemView {
                                    state: StateView { watched: Some(encoded_of(w2.bitfield.values@)), ..self.library_item->Some_0@.state },
                                    ..self.library_item->Some_0@
                                });
                            assert(marked(r.effects@, self.library_item->Some_0, self.watched@[p as int]->Some_0, video_id@, is_watched));
                            assert(marking_slot(*self, p as int));
                            return r;
                        },
                        _ => {
                            return Effects { effects: Vec::new(), has_changed: false };
                        },
                    }
                }
                return Effects { effects: Vec::new(), has_changed: false };
            }
            p = p + 1;
        }
        assert forall|x: int| !marking_slot(*self, x) by {
            if marking_slot(*self, x) {
                assert(meta_ready(self.meta_items@[x].content));
            }
        }
        Effects { effects: Vec::new(), has_changed: false }
    }

    fn meta_result_arrived(&mut self, request: &ResourceRequest, answer: &Result<ResourceResponse, String>) -> (r: Effects)
        requires
            old(self).wf(),
        ensures
            final(self).wf(),
            meta_result_post(*old(self), *final(self), *request, *answer, r),
    {
        let res = meta_result(answer);
        let ghost r0 = res;
        let ghost before = self.meta_items@;
        let meta_e = resource_result(&mut self.meta_items, request, res);
        assert(meta_result_of(r0, *answer) && self.meta_items@ == result_applied(before, request@, r0));
        proof {
            if !slot_requests(before).contains(request@) {
                crate::common::lemma_stale_result_ignored(before, request@, r0);
            }
        }
        if !meta_e.has_changed {
            return meta_e;
        }
        let streams_e = match &self.selected {
            Some(Selected { stream_path: Some(sp), .. }) => match streams_from_meta_items(&self.meta_items, &sp.id) {
                Some(slot) => {
                    let mut next: Vec<ResourceLoadable<Vec<Stream>>> = Vec::new();
                    next.push(slot);
                    assert(stream_slots_view(next@) =~= seq![(slot.request@, stream_content_view(slot.content))]);
                    streams_set(&mut self.streams, next)
                },
                None => Effects { effects: Vec::new(), has_changed: false },
            },
            _ => Effects { effects: Vec::new(), has_changed: false },
        };
        let w_e = watched_update(&mut self.watched, &self.meta_items, &self.library_item);
        meta_e.join(streams_e).join(w_e)
    }
}

} // verus!
