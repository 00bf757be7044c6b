use crate::addon::{
    clone_extra, plan_spec, requests_view, AggrRequest, Descriptor, ExtraValue, ManifestCatalog,
    RequestView, ResourcePath, ResourceRequest,
};
use crate::common::Loadable;
use crate::resource::{
    clone_previews, clone_streams, previews_view, streams_view, MetaItemPreview, PreviewView,
    ResourceResponse, SourceView, Stream,
};
use crate::resource::clone_strings;
use vstd::prelude::*;

verus! {

/// At most this many entries of a catalog are kept in a group.
pub const MAX_ITEMS: usize = 25;

/// A message to the catalog containers.
#[derive(Debug)]
pub enum ContainerAction {
    /// Load with the installed providers, in installation order.
    LoadWithCtx(Vec<Descriptor>, ContainerLoad),
    /// A provider answered a request.
    AddonResponse(ResourceRequest, Result<ResourceResponse, String>),
}

/// What a container is asked to load.
#[derive(Debug)]
pub enum ContainerLoad {
    CatalogGrouped { extra: Vec<ExtraValue> },
    CatalogFiltered { resource_req: ResourceRequest },
    Streams { content_type: String, id: String },
}

pub type LoadableItems = Loadable<Vec<MetaItemPreview>, String>;

pub type LoadableStreams = Loadable<Vec<Stream>, String>;

pub open spec fn items_view(l: LoadableItems) -> Loadable<Seq<PreviewView>, Seq<char>> {
    match l {
        Loadable::Loading => Loadable::Loading,
        Loadable::ReadyEmpty => Loadable::ReadyEmpty,
        Loadable::Ready(v) => Loadable::Ready(previews_view(v@)),
        Loadable::Error(e) => Loadable::Error(e@),
    }
}

pub open spec fn streams_loadable_view(l: LoadableStreams) -> Loadable<
    Seq<(SourceView, Option<Seq<char>>)>,
    Seq<char>,
> {
    match l {
        Loadable::Loading => Loadable::Loading,
        Loadable::ReadyEmpty => Loadable::ReadyEmpty,
        Loadable::Ready(v) => Loadable::Ready(streams_view(v@)),
        Loadable::Error(e) => Loadable::Error(e@),
    }
}

pub open spec fn unexpected_response() -> Seq<char> {
    "unexpected ResourceResponse"@
}

/// What an answer shows in a catalog group that keeps at most `max` entries.
pub open spec fn items_of(
    answer: Result<ResourceResponse, String>,
    max: nat,
) -> Loadable<Seq<PreviewView>, Seq<char>> {
    match answer {
        Ok(ResourceResponse::Metas { metas }) => if metas@.len() == 0 {
            Loadable::ReadyEmpty
        } else {
            Loadable::Ready(
                previews_view(metas@).take(if max < metas@.len() { max as int } else { metas@.len() as int }),
            )
        },
        Ok(_) => Loadable::Error(unexpected_response()),
        Err(e) => Loadable::Error(e@),
    }
}

/// What an answer shows in a streams group.
pub open spec fn streams_of(answer: Result<ResourceResponse, String>) -> Loadable<
    Seq<(SourceView, Option<Seq<char>>)>,
    Seq<char>,
> {
    match answer {
        Ok(ResourceResponse::Streams { streams }) => if streams@.len() == 0 {
            Loadable::ReadyEmpty
        } else {
            Loadable::Ready(streams_view(streams@))
        },
        Ok(_) => Loadable::Error(unexpected_response()),
        Err(e) => Loadable::Error(e@),
    }
}

fn unexpected() -> (r: String)
    ensures
        r@ == unexpected_response(),
{
    String::from_str("unexpected ResourceResponse")
}

fn items_from(answer: &Result<ResourceResponse, String>, max: usize) -> (r: LoadableItems)
    ensures
        items_view(r) == items_of(*answer, max as nat),
{
    match answer {
        Ok(ResourceResponse::Metas { metas }) => {
            if metas.len() == 0 {
                Loadable::ReadyEmpty
            } else {
                Loadable::Ready(clone_previews(metas, max))
            }
        },
        Ok(_) => Loadable::Error(unexpected()),
        Err(e) => Loadable::Error(e.clone()),
    }
}

fn streams_from(answer: &Result<ResourceResponse, String>) -> (r: LoadableStreams)
    ensures
        streams_loadable_view(r) == streams_of(*answer),
{
    match answer {
        Ok(ResourceResponse::Streams { streams }) => {
            if streams.len() == 0 {
                Loadable::ReadyEmpty
            } else {
                Loadable::Ready(clone_streams(streams))
            }
        },
        Ok(_) => Loadable::Error(unexpected()),
        Err(e) => Loadable::Error(e.clone()),
    }
}

fn clone_items(l: &LoadableItems) -> (r: LoadableItems)
    ensures
        items_view(r) == items_view(*l),
{
    match l {
        Loadable::Loading => Loadable::Loading,
        Loadable::ReadyEmpty => Loadable::ReadyEmpty,
        Loadable::Ready(v) => {
            let c = clone_previews(v, v.len());
            assert(previews_view(v@).take(v@.len() as int) =~= previews_view(v@));
            Loadable::Ready(c)
        },
        Loadable::Error(e) => Loadable::Error(e.clone()),
    }
}

fn clone_stream_items(l: &LoadableStreams) -> (r: LoadableStreams)
    ensures
        streams_loadable_view(r) == streams_loadable_view(*l),
{
    match l {
        Loadable::Loading => Loadable::Loading,
        Loadable::ReadyEmpty => Loadable::ReadyEmpty,
        Loadable::Ready(v) => Loadable::Ready(clone_streams(v)),
        Loadable::Error(e) => Loadable::Error(e.clone()),
    }
}

/// Catalog groups, one per planned catalog request.
#[derive(Debug)]
pub struct CatalogGrouped {
    pub groups: Vec<(ResourceRequest, LoadableItems)>,
}

pub open spec fn groups_view(g: Seq<(ResourceRequest, LoadableItems)>) -> Seq<
    (RequestView, Loadable<Seq<PreviewView>, Seq<char>>),
> {
    g.map_values(|x: (ResourceRequest, LoadableItems)| (x.0@, items_view(x.1)))
}

/// Every request of a plan, loading.
pub open spec fn all_loading<V, E>(plan: Seq<RequestView>) -> Seq<(RequestView, Loadable<V, E>)> {
    plan.map_values(|r: RequestView| (r, Loadable::<V, E>::Loading))
}

/// `p` is the first group whose request is `r`.
pub open spec fn first_group<L>(g: Seq<(RequestView, L)>, r: RequestView, p: int) -> bool {
    0 <= p < g.len() && g[p].0 == r && forall|q: int| 0 <= q < p ==> g[q].0 != r
}

/// The first position of `req` among the requests of `g`.
fn position<L>(g: &Vec<(ResourceRequest, L)>, req: &ResourceRequest) -> (r: Option<usize>)
    ensures
        match r {
            Some(p) => p < g@.len() && g@[p as int].0@ == req@ && forall|q: int|
                0 <= q < p ==> g@[q].0@ != req@,
            None => forall|q: int| 0 <= q < g@.len() ==> g@[q].0@ != req@,
        },
{
    let mut i: usize = 0;
    while i < g.len()
        invariant
            i <= g.len(),
            forall|q: int| 0 <= q < i ==> g@[q].0@ != req@,
        decreases g.len() - i,
    {
        if g[i].0 == *req {
            return Some(i);
        }
        i = i + 1;
    }
    None
}

fn loading_groups<L>(plan: Vec<ResourceRequest>) -> (r: Vec<(ResourceRequest, Loadable<L, String>)>)
    ensures
        r@.len() == plan@.len(),
        forall|i: int| 0 <= i < r@.len() ==> #[trigger] r@[i].0@ == plan@[i]@ && (r@[i].1 is Loading),
{
    let mut r: Vec<(ResourceRequest, Loadable<L, String>)> = Vec::new();
    let mut i: usize = 0;
    while i < plan.len()
        invariant
            i <= plan.len(),
            r.len() == i,
            forall|k: int| 0 <= k < i ==> #[trigger] r@[k].0@ == plan@[k]@ && (r@[k].1 is Loading),
        decreases plan.len() - i,
    {
        r.push((plan[i].clone(), Loadable::Loading));
        i = i + 1;
    }
    r
}

impl CatalogGrouped {
    /// No groups.
    pub fn new() -> (r: CatalogGrouped)
        ensures
            r.groups@.len() == 0,
    {
        CatalogGrouped { groups: Vec::new() }
    }

    /// The next state after `action`, or `None` when it changes nothing.
    pub fn dispatch(&self, action: &ContainerAction) -> (r: Option<Box<CatalogGrouped>>)
        ensures
            catalogs_reducer_post(*self, *action, r),
    {
        catalogs_reducer(self, action)
    }
}

/// What the grouped-catalog reducer does: loading plans one loading group per
/// catalog request; an answer fills the first group for its request, keeping
/// at most `MAX_ITEMS` entries; an answer that no group awaits, and any other
/// load, changes nothing.
pub open spec fn catalogs_reducer_post(
    state: CatalogGrouped,
    action: ContainerAction,
    r: Option<Box<CatalogGrouped>>,
) -> bool {
    match action {
        ContainerAction::LoadWithCtx(addons, ContainerLoad::CatalogGrouped { extra }) => r matches Some(
            s,
        ) && groups_view(s.groups@) == all_loading::<Seq<PreviewView>, Seq<char>>(
            plan_spec(AggrRequest::AllCatalogs { extra }, addons@),
        ),
        ContainerAction::AddonResponse(req, answer) => if exists|p: int|
            first_group(groups_view(state.groups@), req@, p) && (groups_view(state.groups@)[p].1 is Loading) {
            let p = choose|p: int|
                first_group(groups_view(state.groups@), req@, p) && (groups_view(state.groups@)[p].1 is Loading);
            r matches Some(s) && groups_view(s.groups@) == groups_view(state.groups@).update(
                p,
                (req@, items_of(answer, MAX_ITEMS as nat)),
            )
        } else {
            r is None
        },
        _ => r is None,
    }
}

fn catalogs_reducer(state: &CatalogGrouped, action: &ContainerAction) -> (r: Option<
    Box<CatalogGrouped>,
>)
    ensures
        catalogs_reducer_post(*state, *action, r),
{
    match action {
        ContainerAction::LoadWithCtx(addons, ContainerLoad::CatalogGrouped { extra }) => {
            let aggr = AggrRequest::AllCatalogs { extra: clone_extra(extra) };
            let plan = aggr.plan(addons);
            proof {
                lemma_catalog_plan_extra(aggr, AggrRequest::AllCatalogs { extra: *extra }, addons@);
            }
            let groups = loading_groups(plan);
            assert(groups_view(groups@) =~= all_loading::<Seq<PreviewView>, Seq<char>>(requests_view(plan@)));
            Some(Box::new(CatalogGrouped { groups }))
        },
        ContainerAction::AddonResponse(req, answer) => {
            match position(&state.groups, req) {
                Some(idx) => {
                    let ghost g0 = groups_view(state.groups@);
                    assert(first_group(g0, req@, idx as int));
                    assert forall|p: int| first_group(g0, req@, p) implies p == idx by {
                        if p > idx {
                            assert(g0[idx as int].0 == req@);
                        }
                    }
                    if !matches!(state.groups[idx].1, Loadable::Loading) {
                        return None;
                    }
                    let ghost gv = groups_view(state.groups@);
                    let mut groups: Vec<(ResourceRequest, LoadableItems)> = Vec::new();
                    let mut i: usize = 0;
                    while i < state.groups.len()
                        invariant
                            i <= state.groups.len(),
                            idx < state.groups.len(),
                            gv == groups_view(state.groups@),
                            groups.len() == i,
                            forall|k: int|
                                0 <= k < i ==> #[trigger] groups_view(groups@)[k] == gv.update(
                                    idx as int,
                                    (req@, items_of(*answer, MAX_ITEMS as nat)),
                                )[k],
                        decreases state.groups.len() - i,
                    {
                        let ghost before = groups@;
                        if i == idx {
                            groups.push((req.clone(), items_from(answer, MAX_ITEMS)));
                        } else {
                            groups.push((state.groups[i].0.clone(), clone_items(&state.groups[i].1)));
                        }
                        assert forall|k: int| 0 <= k <= i implies #[trigger] groups_view(groups@)[k]
                            == gv.update(idx as int, (req@, items_of(*answer, MAX_ITEMS as nat)))[k] by {
                            if k < i {
                                assert(groups@[k] == before[k]);
                                assert(groups_view(before)[k] == groups_view(groups@)[k]);
                            }
                        }
                        i = i + 1;
                    }
                    assert(first_group(gv, req@, idx as int));
                    assert forall|p: int| first_group(gv, req@, p) implies p == idx by {
                        if p > idx {
                            assert(gv[idx as int].0 == req@);
                        }
                    }
                    assert(groups_view(groups@) =~= gv.update(
                        idx as int,
                        (req@, items_of(*answer, MAX_ITEMS as nat)),
                    ));
                    Some(Box::new(CatalogGrouped { groups }))
                },
                None => {
                    assert forall|p: int| !first_group(groups_view(state.groups@), req@, p) by {
                        if first_group(groups_view(state.groups@), req@, p) {
                            assert(groups_view(state.groups@)[p].0 == state.groups@[p].0@);
                        }
                    }
                    None
                },
            }
        },
        _ => None,
    }
}

proof fn lemma_catalog_plan_extra(a: AggrRequest, b: AggrRequest, addons: Seq<Descriptor>)
    requires
        a matches AggrRequest::AllCatalogs { extra: x },
        b matches AggrRequest::AllCatalogs { extra: y },
        crate::addon::extra_view(a->AllCatalogs_extra@) == crate::addon::extra_view(
            b->AllCatalogs_extra@,
        ),
    ensures
        plan_spec(a, addons) == plan_spec(b, addons),
    decreases addons.len(),
{
    if addons.len() > 0 {
        lemma_catalog_plan_extra(a, b, addons.drop_last());
    }
}

/// A catalog as values: type, id, required and accepted extra names.
pub open spec fn catalog_view(c: ManifestCatalog) -> (Seq<char>, Seq<char>, Seq<Seq<char>>, Seq<Seq<char>>) {
    (
        c.content_type@,
        c.id@,
        crate::watched_bitfield::ids_view(c.extra_required@),
        crate::watched_bitfield::ids_view(c.extra_supported@),
    )
}

pub open spec fn catalogs_view(s: Seq<ManifestCatalog>) -> Seq<(Seq<char>, Seq<char>, Seq<Seq<char>>, Seq<Seq<char>>)> {
    s.map_values(|c: ManifestCatalog| catalog_view(c))
}

/// The catalogs of `cats` that need no extra parameter, in order.
pub open spec fn plain_catalogs(cats: Seq<ManifestCatalog>) -> Seq<ManifestCatalog>
    decreases cats.len(),
{
    if cats.len() == 0 {
        seq![]
    } else {
        plain_catalogs(cats.drop_last()) + if crate::addon::catalog_accepts(cats.last(), seq![]) {
            seq![cats.last()]
        } else {
            seq![]
        }
    }
}

/// The catalogs of every provider, provider by provider, that need no extra parameter.
pub open spec fn all_plain_catalogs(addons: Seq<Descriptor>) -> Seq<ManifestCatalog>
    decreases addons.len(),
{
    if addons.len() == 0 {
        seq![]
    } else {
        all_plain_catalogs(addons.drop_last()) + plain_catalogs(addons.last().manifest.catalogs@)
    }
}

fn clone_catalog(c: &ManifestCatalog) -> (r: ManifestCatalog)
    ensures
        catalog_view(r) == catalog_view(*c),
{
    ManifestCatalog {
        content_type: c.content_type.clone(),
        id: c.id.clone(),
        extra_required: clone_strings(&c.extra_required),
        extra_supported: clone_strings(&c.extra_supported),
    }
}

fn plain_catalogs_of(addons: &Vec<Descriptor>) -> (r: Vec<ManifestCatalog>)
    ensures
        catalogs_view(r@) == catalogs_view(all_plain_catalogs(addons@)),
{
    let mut r: Vec<ManifestCatalog> = Vec::new();
    let none: Vec<ExtraValue> = Vec::new();
    assert(crate::addon::extra_names(crate::addon::extra_view(none@)) =~= Seq::<Seq<char>>::empty());
    let mut i: usize = 0;
    while i < addons.len()
        invariant
            i <= addons.len(),
            none@.len() == 0,
            crate::addon::extra_names(crate::addon::extra_view(none@)) == Seq::<Seq<char>>::empty(),
            catalogs_view(r@) == catalogs_view(all_plain_catalogs(addons@.subrange(0, i as int))),
        decreases addons.len() - i,
    {
        let cats = &addons[i].manifest.catalogs;
        let ghost start = catalogs_view(r@);
        let mut j: usize = 0;
        while j < cats.len()
            invariant
                j <= cats.len(),
                crate::addon::extra_names(crate::addon::extra_view(none@)) == Seq::<Seq<char>>::empty(),
                catalogs_view(r@) == start + catalogs_view(plain_catalogs(cats@.subrange(0, j as int))),
            decreases cats.len() - j,
        {
            let ghost pre = cats@.subrange(0, j + 1);
            assert(pre.drop_last() =~= cats@.subrange(0, j as int));
            assert(pre.last() == cats@[j as int]);
            let ghost before = r@;
            if cats[j].is_extra_supported(&none) {
                r.push(clone_catalog(&cats[j]));
                assert(catalogs_view(r@) =~= catalogs_view(before) + seq![catalog_view(cats@[j as int])]);
            }
            assert(catalogs_view(plain_catalogs(pre)) =~= catalogs_view(plain_catalogs(pre.drop_last())) + catalogs_view(
                if crate::addon::catalog_accepts(pre.last(), seq![]) { seq![pre.last()] } else { seq![] }));
            assert(catalogs_view(r@) =~= start + catalogs_view(plain_catalogs(pre)));
            j = j + 1;
        }
        assert(cats@.subrange(0, cats.len() as int) =~= cats@);
        assert(addons@.subrange(0, i + 1).drop_last() =~= addons@.subrange(0, i as int));
        let ghost pa = addons@.subrange(0, i + 1);
        assert(catalogs_view(all_plain_catalogs(pa)) =~= catalogs_view(all_plain_catalogs(pa.drop_last()))
            + catalogs_view(plain_catalogs(pa.last().manifest.catalogs@)));
        assert(catalogs_view(r@) =~= catalogs_view(all_plain_catalogs(pa)));
        i = i + 1;
    }
    assert(addons@.subrange(0, addons.len() as int) =~= addons@);
    r
}

/// One catalog, page by page.
#[derive(Debug)]
pub struct CatalogFiltered {
    pub item_pages: Vec<LoadableItems>,
    pub catalogs: Vec<ManifestCatalog>,
    pub selected: Option<ResourceRequest>,
}

pub open spec fn pages_view(p: Seq<LoadableItems>) -> Seq<Loadable<Seq<PreviewView>, Seq<char>>> {
    p.map_values(|x: LoadableItems| items_view(x))
}

/// What the filtered-catalog container does: loading selects the request,
/// lists every provider's catalogs that need no extra parameter and starts
/// one loading page; the answer to the selected request fills the first page
/// while the last page is loading; anything else changes nothing.
pub open spec fn filtered_post(
    state: CatalogFiltered,
    action: ContainerAction,
    r: Option<Box<CatalogFiltered>>,
) -> bool {
    match action {
        ContainerAction::LoadWithCtx(addons, ContainerLoad::CatalogFiltered { resource_req }) => r matches Some(s)
            && catalogs_view(s.catalogs@) == catalogs_view(all_plain_catalogs(addons@))
            && pages_view(s.item_pages@) == seq![Loadable::<Seq<PreviewView>, Seq<char>>::Loading]
            && (s.selected matches Some(x) && x@ == resource_req@),
        ContainerAction::AddonResponse(req, answer) => if state.selected matches Some(x) && x@ == req@
            && state.item_pages@.len() > 0 && state.item_pages@.last() is Loading {
            r matches Some(s)
                && pages_view(s.item_pages@) == pages_view(state.item_pages@).update(0, items_of(answer, usize::MAX as nat))
                && catalogs_view(s.catalogs@) == catalogs_view(state.catalogs@)
                && (s.selected matches Some(y) && y@ == req@)
        } else {
            r is None
        },
        _ => r is None,
    }
}

impl CatalogFiltered {
    /// Nothing selected.
    pub fn new() -> (r: CatalogFiltered)
        ensures
            r.item_pages@.len() == 0,
            r.catalogs@.len() == 0,
            r.selected is None,
    {
        CatalogFiltered { item_pages: Vec::new(), catalogs: Vec::new(), selected: None }
    }

    /// The next state after `action`, or `None` when it changes nothing.
    pub fn dispatch(&self, action: &ContainerAction) -> (r: Option<Box<CatalogFiltered>>)
        ensures
            filtered_post(*self, *action, r),
    {
        match action {
            ContainerAction::LoadWithCtx(addons, ContainerLoad::CatalogFiltered { resource_req }) => {
                let catalogs = plain_catalogs_of(addons);
                let mut item_pages: Vec<LoadableItems> = Vec::new();
                item_pages.push(Loadable::Loading);
                assert(pages_view(item_pages@) =~= seq![Loadable::<Seq<PreviewView>, Seq<char>>::Loading]);
                Some(Box::new(CatalogFiltered { catalogs, item_pages, selected: Some(resource_req.clone()) }))
            },
            ContainerAction::AddonResponse(req, answer) => {
                let selected_matches = match &self.selected {
                    Some(x) => *x == *req,
                    None => false,
                };
                let n = self.item_pages.len();
                if selected_matches && n > 0 && matches!(self.item_pages[n - 1], Loadable::Loading) {
                    let mut pages: Vec<LoadableItems> = Vec::new();
                    let mut i: usize = 0;
                    let ghost target = pages_view(self.item_pages@).update(0, items_of(*answer, usize::MAX as nat));
                    while i < n
                        invariant
                            n == self.item_pages.len(),
                            i <= n,
                            pages.len() == i,
                            target == pages_view(self.item_pages@).update(0, items_of(*answer, usize::MAX as nat)),
                            forall|k: int| 0 <= k < i ==> #[trigger] pages_view(pages@)[k] == target[k],
                        decreases n - i,
                    {
                        let ghost before = pages@;
                        if i == 0 {
                            pages.push(items_from(answer, usize::MAX));
                        } else {
                            pages.push(clone_items(&self.item_pages[i]));
                        }
                        assert forall|k: int| 0 <= k <= i implies #[trigger] pages_view(pages@)[k] == target[k] by {
                            if k < i {
                                assert(pages@[k] == before[k]);
                                assert(pages_view(before)[k] == pages_view(pages@)[k]);
                            }
                        }
                        i = i + 1;
                    }
                    assert(pages_view(pages@) =~= target);
                    let mut catalogs: Vec<ManifestCatalog> = Vec::new();
                    let mut j: usize = 0;
                    while j < self.catalogs.len()
                        invariant
                            j <= self.catalogs.len(),
                            catalogs.len() == j,
                            forall|k: int| 0 <= k < j ==> #[trigger] catalog_view(catalogs@[k]) == catalog_view(self.catalogs@[k]),
                        decreases self.catalogs.len() - j,
                    {
                        catalogs.push(clone_catalog(&self.catalogs[j]));
                        j = j + 1;
                    }
                    assert(catalogs_view(catalogs@) =~= catalogs_view(self.catalogs@));

                    Some(Box::new(CatalogFiltered { item_pages: pages, catalogs, selected: Some(req.clone()) }))
                } else {
                    None
                }
            },
            _ => None,
        }
    }
}

/// Stream groups, one per provider that serves the video's streams.
#[derive(Debug)]
pub struct Streams {
    pub groups: Vec<(ResourceRequest, LoadableStreams)>,
}

pub open spec fn stream_groups_view(g: Seq<(ResourceRequest, LoadableStreams)>) -> Seq<
    (RequestView, Loadable<Seq<(SourceView, Option<Seq<char>>)>, Seq<char>>),
> {
    g.map_values(|x: (ResourceRequest, LoadableStreams)| (x.0@, streams_loadable_view(x.1)))
}

pub open spec fn stream_resource() -> Seq<char> {
    seq!['s', 't', 'r', 'e', 'a', 'm']
}

/// The path of a video's streams.
pub open spec fn stream_path_view(content_type: Seq<char>, id: Seq<char>) -> crate::addon::PathView {
    crate::addon::PathView { resource: stream_resource(), content_type, id, extra: seq![] }
}

/// What the streams container does: loading plans one loading group per
/// provider that serves the video's streams; an answer fills the first group
/// for its request; anything else changes nothing.
pub open spec fn streams_post(
    state: Streams,
    action: ContainerAction,
    r: Option<Box<Streams>>,
) -> bool {
    match action {
        ContainerAction::LoadWithCtx(addons, ContainerLoad::Streams { content_type, id }) => r matches Some(s)
            && exists|path: ResourcePath| path@ == stream_path_view(content_type@, id@)
                && stream_groups_view(s.groups@) == all_loading::<Seq<(SourceView, Option<Seq<char>>)>, Seq<char>>(plan_spec(AggrRequest::AllOfResource(path), addons@)),
        ContainerAction::AddonResponse(req, answer) => if exists|p: int|
            first_group(stream_groups_view(state.groups@), req@, p) && (stream_groups_view(state.groups@)[p].1 is Loading) {
            let p = choose|p: int|
                first_group(stream_groups_view(state.groups@), req@, p) && (stream_groups_view(state.groups@)[p].1 is Loading);
            r matches Some(s) && stream_groups_view(s.groups@) == stream_groups_view(state.groups@).update(
                p,
                (req@, streams_of(answer)),
            )
        } else {
            r is None
        },
        _ => r is None,
    }
}

impl Streams {
    /// No groups.
    pub fn new() -> (r: Streams)
        ensures
            r.groups@.len() == 0,
    {
        Streams { groups: Vec::new() }
    }

    /// The next state after `action`, or `None` when it changes nothing.
    pub fn dispatch(&self, action: &ContainerAction) -> (r: Option<Box<Streams>>)
        ensures
            streams_post(*self, *action, r),
    {
        match action {
            ContainerAction::LoadWithCtx(addons, ContainerLoad::Streams { content_type, id }) => {
                let resource = String::from_str("stream");
                proof {
                    reveal_strlit("stream");
                    assert(resource@ =~= stream_resource());
                }
                let path = ResourcePath {
                    resource,
                    content_type: content_type.clone(),
                    id: id.clone(),
                    extra: Vec::new(),
                };
                assert(path@.extra =~= Seq::<(Seq<char>, Seq<char>)>::empty());
                let ghost pg = path;
                let aggr = AggrRequest::AllOfResource(path);
                let plan = aggr.plan(addons);
                let groups = loading_groups(plan);
                assert(stream_groups_view(groups@) =~= all_loading::<Seq<(SourceView, Option<Seq<char>>)>, Seq<char>>(requests_view(plan@)));
                Some(Box::new(Streams { groups }))
            },
            ContainerAction::AddonResponse(req, answer) => {
                match position(&self.groups, req) {
                    Some(idx) => {
                        let ghost g0 = stream_groups_view(self.groups@);
                        assert(first_group(g0, req@, idx as int));
                        assert forall|p: int| first_group(g0, req@, p) implies p == idx by {
                            if p > idx {
                                assert(g0[idx as int].0 == req@);
                            }
                        }
                        if !matches!(self.groups[idx].1, Loadable::Loading) {
                            return None;
                        }
                        let ghost gv = stream_groups_view(self.groups@);
                        let ghost target = gv.update(idx as int, (req@, streams_of(*answer)));
                        let mut groups: Vec<(ResourceRequest, LoadableStreams)> = Vec::new();
                        let mut i: usize = 0;
                        while i < self.groups.len()
                            invariant
                                i <= self.groups.len(),
                                idx < self.groups.len(),
                                gv == stream_groups_view(self.groups@),
                                target == gv.update(idx as int, (req@, streams_of(*answer))),
                                groups.len() == i,
                                forall|k: int| 0 <= k < i ==> #[trigger] stream_groups_view(groups@)[k] == target[k],
                            decreases self.groups.len() - i,
                        {
                            let ghost before = groups@;
                            if i == idx {
                                groups.push((req.clone(), streams_from(answer)));
                            } else {
                                groups.push((self.groups[i].0.clone(), clone_stream_items(&self.groups[i].1)));
                            }
                            assert forall|k: int| 0 <= k <= i implies #[trigger] stream_groups_view(groups@)[k] == target[k] by {
                                if k < i {
                                    assert(groups@[k] == before[k]);
                                    assert(stream_groups_view(before)[k] == stream_groups_view(groups@)[k]);
                                }
                            }
                            i = i + 1;
                        }
                        assert(first_group(gv, req@, idx as int));
                        assert forall|p: int| first_group(gv, req@, p) implies p == idx by {
                            if p > idx {
                                assert(gv[idx as int].0 == req@);
                            }
                        }
                        assert(stream_groups_view(groups@) =~= target);
                        Some(Box::new(Streams { groups }))
                    },
                    None => {
                        assert forall|p: int| !first_group(stream_groups_view(self.groups@), req@, p) by {
                            if first_group(stream_groups_view(self.groups@), req@, p) {
                                assert(stream_groups_view(self.groups@)[p].0 == self.groups@[p].0@);
                            }
                        }
                        None
                    },
                }
            },
            _ => None,
        }
    }
}

} // verus!
