use vstd::prelude::*;

verus! {

/// One extra parameter of a resource path, such as a search term or a page offset.
#[derive(Debug)]
pub struct ExtraValue {
    pub name: String,
    pub value: String,
}

/// What to fetch from a provider: the resource kind, the content type, the id
/// and the extra parameters.
#[derive(Debug)]
pub struct ResourcePath {
    pub resource: String,
    pub content_type: String,
    pub id: String,
    pub extra: Vec<ExtraValue>,
}

/// A resource path addressed to one provider, named by its base URL.
#[derive(Debug)]
pub struct ResourceRequest {
    pub base: String,
    pub path: ResourcePath,
}

/// A resource path as text.
pub struct PathView {
    pub resource: Seq<char>,
    pub content_type: Seq<char>,
    pub id: Seq<char>,
    pub extra: Seq<(Seq<char>, Seq<char>)>,
}

/// A resource request as text.
pub struct RequestView {
    pub base: Seq<char>,
    pub path: PathView,
}

pub open spec fn extra_view(extra: Seq<ExtraValue>) -> Seq<(Seq<char>, Seq<char>)> {
    extra.map_values(|e: ExtraValue| (e.name@, e.value@))
}

impl View for ResourcePath {
    type V = PathView;

    open spec fn view(&self) -> PathView {
        PathView {
            resource: self.resource@,
            content_type: self.content_type@,
            id: self.id@,
            extra: extra_view(self.extra@),
        }
    }
}

impl View for ResourceRequest {
    type V = RequestView;

    open spec fn view(&self) -> RequestView {
        RequestView { base: self.base@, path: self.path@ }
    }
}

impl Clone for ExtraValue {
    fn clone(&self) -> (r: Self)
        ensures
            r.name@ == self.name@,
            r.value@ == self.value@,
    {
        ExtraValue { name: self.name.clone(), value: self.value.clone() }
    }
}

/// A copy of a list of extra parameters.
pub fn clone_extra(extra: &Vec<ExtraValue>) -> (r: Vec<ExtraValue>)
    ensures
        extra_view(r@) == extra_view(extra@),
{
    let mut r: Vec<ExtraValue> = Vec::new();
    let mut i: usize = 0;
    while i < extra.len()
        invariant
            i <= extra.len(),
            r.len() == i,
            extra_view(r@) == extra_view(extra@.subrange(0, i as int)),
        decreases extra.len() - i,
    {
        let ghost before = r@;
        let e = ExtraValue { name: extra[i].name.clone(), value: extra[i].value.clone() };
        r.push(e);
        assert forall|k: int| 0 <= k < i implies #[trigger] extra_view(r@)[k] == extra_view(
            extra@.subrange(0, i + 1),
        )[k] by {
            assert(r@[k] == before[k]);
            assert(extra_view(before)[k] == extra_view(extra@.subrange(0, i as int))[k]);
        }
        assert(extra_view(r@) =~= extra_view(extra@.subrange(0, i + 1)));
        i = i + 1;
    }
    assert(extra@.subrange(0, extra.len() as int) =~= extra@);
    r
}

/// Whether two lists of extra parameters hold the same names and values in order.
pub fn same_extra(a: &Vec<ExtraValue>, b: &Vec<ExtraValue>) -> (r: bool)
    ensures
        r == (extra_view(a@) == extra_view(b@)),
{
    if a.len() != b.len() {
        assert(extra_view(a@).len() != extra_view(b@).len());
        return false;
    }
    let mut i: usize = 0;
    while i < a.len()
        invariant
            a.len() == b.len(),
            i <= a.len(),
            forall|j: int| 0 <= j < i ==> extra_view(a@)[j] == extra_view(b@)[j],
        decreases a.len() - i,
    {
        if a[i].name != b[i].name || a[i].value != b[i].value {
            assert(extra_view(a@)[i as int] != extra_view(b@)[i as int]);
            return false;
        }
        i = i + 1;
    }
    assert(extra_view(a@) =~= extra_view(b@));
    true
}

impl Clone for ResourcePath {
    fn clone(&self) -> (r: Self)
        ensures
            r@ == self@,
    {
        ResourcePath {
            resource: self.resource.clone(),
            content_type: self.content_type.clone(),
            id: self.id.clone(),
            extra: clone_extra(&self.extra),
        }
    }
}

impl Clone for ResourceRequest {
    fn clone(&self) -> (r: Self)
        ensures
            r@ == self@,
    {
        ResourceRequest { base: self.base.clone(), path: self.path.clone() }
    }
}

impl PartialEq for ResourcePath {
    fn eq(&self, o: &ResourcePath) -> (r: bool) {
        self.resource == o.resource && self.content_type == o.content_type && self.id == o.id
            && same_extra(&self.extra, &o.extra)
    }
}

impl vstd::std_specs::cmp::PartialEqSpecImpl for ResourcePath {
    open spec fn obeys_eq_spec() -> bool {
        true
    }

    open spec fn eq_spec(&self, o: &ResourcePath) -> bool {
        self@ == o@
    }
}

impl PartialEq for ResourceRequest {
    fn eq(&self, o: &ResourceRequest) -> (r: bool) {
        self.base == o.base && self.path == o.path
    }
}

impl vstd::std_specs::cmp::PartialEqSpecImpl for ResourceRequest {
    open spec fn obeys_eq_spec() -> bool {
        true
    }

    open spec fn eq_spec(&self, o: &ResourceRequest) -> bool {
        self@ == o@
    }
}

/// A resource that a provider serves, for the listed types (all of the
/// manifest's types when none are listed).
#[derive(Debug, Clone)]
pub struct ManifestResource {
    pub name: String,
    pub types: Option<Vec<String>>,
}

/// A catalog that a provider offers, with the extra parameters it requires and
/// those it accepts.
#[derive(Debug, Clone)]
pub struct ManifestCatalog {
    pub content_type: String,
    pub id: String,
    pub extra_required: Vec<String>,
    pub extra_supported: Vec<String>,
}

/// What a provider declares it can serve.
#[derive(Debug, Clone)]
pub struct Manifest {
    pub id: String,
    pub name: String,
    pub types: Vec<String>,
    pub resources: Vec<ManifestResource>,
    pub catalogs: Vec<ManifestCatalog>,
}

/// An installed provider: where it lives and what it serves.
#[derive(Debug, Clone)]
pub struct Descriptor {
    pub transport_url: String,
    pub manifest: Manifest,
}

/// A fan-out intent, independent of which providers are installed.
#[derive(Debug)]
pub enum AggrRequest {
    /// Every catalog of every provider that accepts these extra parameters.
    AllCatalogs { extra: Vec<ExtraValue> },
    /// This path from every provider that serves its resource and type.
    AllOfResource(ResourcePath),
}

/// Whether `t` is one of the texts of `ss`.
pub open spec fn has_text(ss: Seq<String>, t: Seq<char>) -> bool {
    exists|i: int| 0 <= i < ss.len() && ss[i]@ == t
}

/// Whether the entry `r` of manifest `m` covers `path`.
pub open spec fn resource_covers(m: Manifest, r: ManifestResource, path: PathView) -> bool {
    r.name@ == path.resource && match r.types {
        Some(ts) => has_text(ts@, path.content_type),
        None => has_text(m.types@, path.content_type),
    }
}

/// Whether manifest `m` declares support for `path`.
pub open spec fn supports_path(m: Manifest, path: PathView) -> bool {
    exists|i: int| 0 <= i < m.resources.len() && resource_covers(m, m.resources@[i], path)
}

/// Whether catalog `c` can be asked with extra parameters named `names`: each
/// required name is given and each given name is accepted.
pub open spec fn catalog_accepts(c: ManifestCatalog, names: Seq<Seq<char>>) -> bool {
    &&& forall|i: int| 0 <= i < c.extra_required.len() ==> names.contains(c.extra_required@[i]@)
    &&& forall|j: int| 0 <= j < names.len() ==> has_text(c.extra_supported@, names[j])
}

pub open spec fn extra_names(extra: Seq<(Seq<char>, Seq<char>)>) -> Seq<Seq<char>> {
    extra.map_values(|e: (Seq<char>, Seq<char>)| e.0)
}

/// The catalog requests to `base` for the catalogs `cats` that accept `extra`, in order.
pub open spec fn catalog_plan(
    base: Seq<char>,
    cats: Seq<ManifestCatalog>,
    extra: Seq<(Seq<char>, Seq<char>)>,
) -> Seq<RequestView>
    decreases cats.len(),
{
    if cats.len() == 0 {
        seq![]
    } else {
        let c = cats.last();
        catalog_plan(base, cats.drop_last(), extra) + if catalog_accepts(c, extra_names(extra)) {
            seq![
                RequestView {
                    base,
                    path: PathView {
                        resource: catalog_resource(),
                        content_type: c.content_type@,
                        id: c.id@,
                        extra,
                    },
                },
            ]
        } else {
            seq![]
        }
    }
}

pub open spec fn catalog_resource() -> Seq<char> {
    seq!['c', 'a', 't', 'a', 'l', 'o', 'g']
}

/// The requests that one provider gets for a fan-out intent.
pub open spec fn provider_plan(req: AggrRequest, d: Descriptor) -> Seq<RequestView> {
    match req {
        AggrRequest::AllCatalogs { extra } => catalog_plan(
            d.transport_url@,
            d.manifest.catalogs@,
            extra_view(extra@),
        ),
        AggrRequest::AllOfResource(path) => if supports_path(d.manifest, path@) {
            seq![RequestView { base: d.transport_url@, path: path@ }]
        } else {
            seq![]
        },
    }
}

/// The requests for a fan-out intent over providers in installation order.
pub open spec fn plan_spec(req: AggrRequest, addons: Seq<Descriptor>) -> Seq<RequestView>
    decreases addons.len(),
{
    if addons.len() == 0 {
        seq![]
    } else {
        plan_spec(req, addons.drop_last()) + provider_plan(req, addons.last())
    }
}

pub open spec fn requests_view(rs: Seq<ResourceRequest>) -> Seq<RequestView> {
    rs.map_values(|r: ResourceRequest| r@)
}

/// Installing more providers appends their requests after the others': the plan
/// over two lists is the plan over the first followed by the plan over the second.
pub proof fn lemma_plan_concat(req: AggrRequest, a: Seq<Descriptor>, b: Seq<Descriptor>)
    ensures
        plan_spec(req, a + b) == plan_spec(req, a) + plan_spec(req, b),
    decreases b.len(),
{
    if b.len() == 0 {
        assert(a + b =~= a);
        assert(plan_spec(req, a) + plan_spec(req, b) =~= plan_spec(req, a));
    } else {
        assert((a + b).drop_last() =~= a + b.drop_last());
        assert((a + b).last() == b.last());
        lemma_plan_concat(req, a, b.drop_last());
        assert(plan_spec(req, a + b) =~= plan_spec(req, a) + plan_spec(req, b));
    }
}

/// Planning depends on the intent and the providers alone: equal inputs give
/// equal plans.
pub proof fn lemma_plan_deterministic(
    req1: AggrRequest,
    req2: AggrRequest,
    a: Seq<Descriptor>,
    b: Seq<Descriptor>,
)
    requires
        req1 == req2,
        a == b,
    ensures
        plan_spec(req1, a) == plan_spec(req2, b),
{
}

/// Planning a path depends on its text alone.
pub proof fn lemma_plan_path_view(first: ResourcePath, second: ResourcePath, addons: Seq<Descriptor>)
    requires
        first@ == second@,
    ensures
        plan_spec(AggrRequest::AllOfResource(first), addons) == plan_spec(
            AggrRequest::AllOfResource(second),
            addons,
        ),
    decreases addons.len(),
{
    if addons.len() > 0 {
        lemma_plan_path_view(first, second, addons.drop_last());
    }
}

fn has_string(ss: &Vec<String>, t: &String) -> (r: bool)
    ensures
        r == has_text(ss@, t@),
{
    let mut i: usize = 0;
    while i < ss.len()
        invariant
            i <= ss.len(),
            forall|j: int| 0 <= j < i ==> ss@[j]@ != t@,
        decreases ss.len() - i,
    {
        if ss[i] == *t {
            return true;
        }
        i = i + 1;
    }
    false
}

impl Manifest {
    /// Whether this manifest declares support for `path`'s resource and type.
    pub fn is_resource_supported(&self, path: &ResourcePath) -> (r: bool)
        ensures
            r == supports_path(*self, path@),
    {
        let mut i: usize = 0;
        while i < self.resources.len()
            invariant
                i <= self.resources.len(),
                forall|j: int| 0 <= j < i ==> !resource_covers(*self, self.resources@[j], path@),
            decreases self.resources.len() - i,
        {
            let r = &self.resources[i];
            if r.name == path.resource {
                let covered = match &r.types {
                    Some(ts) => has_string(ts, &path.content_type),
                    None => has_string(&self.types, &path.content_type),
                };
                if covered {
                    assert(resource_covers(*self, self.resources@[i as int], path@));
                    return true;
                }
            }
            i = i + 1;
        }
        false
    }
}

impl ManifestCatalog {
    /// Whether this catalog can be asked with the given extra parameters.
    pub fn is_extra_supported(&self, extra: &Vec<ExtraValue>) -> (r: bool)
        ensures
            r == catalog_accepts(*self, extra_names(extra_view(extra@))),
    {
        let ghost names = extra_names(extra_view(extra@));
        let mut i: usize = 0;
        while i < self.extra_required.len()
            invariant
                i <= self.extra_required.len(),
                names == extra_names(extra_view(extra@)),
                forall|k: int| 0 <= k < i ==> names.contains(self.extra_required@[k]@),
            decreases self.extra_required.len() - i,
        {
            let mut found = false;
            let mut j: usize = 0;
            while j < extra.len()
                invariant
                    j <= extra.len(),
                    i < self.extra_required.len(),
                    names == extra_names(extra_view(extra@)),
                    found ==> names.contains(self.extra_required@[i as int]@),
                    !found ==> forall|m: int| 0 <= m < j ==> names[m] != self.extra_required@[i as int]@,
                decreases extra.len() - j,
            {
                if extra[j].name == self.extra_required[i] {
                    assert(names[j as int] == self.extra_required@[i as int]@);
                    found = true;
                }
                j = j + 1;
            }
            if !found {
                assert(!names.contains(self.extra_required@[i as int]@));
                return false;
            }
            i = i + 1;
        }
        let mut j: usize = 0;
        while j < extra.len()
            invariant
                j <= extra.len(),
                names == extra_names(extra_view(extra@)),
                forall|k: int| 0 <= k < self.extra_required.len() ==> names.contains(self.extra_required@[k]@),
                forall|m: int| 0 <= m < j ==> has_text(self.extra_supported@, names[m]),
            decreases extra.len() - j,
        {
            if !has_string(&self.extra_supported, &extra[j].name) {
                assert(names[j as int] == extra@[j as int].name@);
                return false;
            }
            j = j + 1;
        }
        true
    }
}

impl AggrRequest {
    /// The concrete requests, provider by provider in installation order.
    pub fn plan(&self, addons: &Vec<Descriptor>) -> (r: Vec<ResourceRequest>)
        ensures
            requests_view(r@) == plan_spec(*self, addons@),
    {
        let mut r: Vec<ResourceRequest> = Vec::new();
        let mut i: usize = 0;
        while i < addons.len()
            invariant
                i <= addons.len(),
                requests_view(r@) == plan_spec(*self, addons@.subrange(0, i as int)),
            decreases addons.len() - i,
        {
            let ghost before = r@;
            let d = &addons[i];
            match self {
                AggrRequest::AllOfResource(path) => {
                    if d.manifest.is_resource_supported(path) {
                        r.push(ResourceRequest { base: d.transport_url.clone(), path: path.clone() });
                    }
                },
                AggrRequest::AllCatalogs { extra } => {
                    push_catalog_requests(&mut r, d, extra);
                },
            }
            assert(addons@.subrange(0, i + 1).drop_last() =~= addons@.subrange(0, i as int));
            assert(requests_view(r@) =~= requests_view(before) + provider_plan(*self, addons@[i as int]));
            i = i + 1;
        }
        assert(addons@.subrange(0, addons.len() as int) =~= addons@);
        r
    }
}

fn push_catalog_requests(r: &mut Vec<ResourceRequest>, d: &Descriptor, extra: &Vec<ExtraValue>)
    ensures
        requests_view(final(r)@) == requests_view(old(r)@) + catalog_plan(
            d.transport_url@,
            d.manifest.catalogs@,
            extra_view(extra@),
        ),
{
    let ghost start = requests_view(r@);
    let cats = &d.manifest.catalogs;
    let mut i: usize = 0;
    while i < cats.len()
        invariant
            i <= cats.len(),
            cats == &d.manifest.catalogs,
            requests_view(r@) == start + catalog_plan(
                d.transport_url@,
                cats@.subrange(0, i as int),
                extra_view(extra@),
            ),
        decreases cats.len() - i,
    {
        let ghost before = requests_view(r@);
        let c = &cats[i];
        let ghost pre = cats@.subrange(0, i + 1);
        assert(pre.last() == cats@[i as int]);
        assert(pre.drop_last() =~= cats@.subrange(0, i as int));
        if c.is_extra_supported(extra) {
            let resource = String::from_str("catalog");
            proof {
                reveal_strlit("catalog");
            }
            let req = ResourceRequest {
                base: d.transport_url.clone(),
                path: ResourcePath {
                    resource,
                    content_type: c.content_type.clone(),
                    id: c.id.clone(),
                    extra: clone_extra(extra),
                },
            };
            assert(req.path.resource@ =~= catalog_resource());
            r.push(req);
            assert(requests_view(r@) =~= before + seq![req@]);
        } else {
            assert(requests_view(r@) =~= before);
        }
        assert(cats@.subrange(0, i + 1).drop_last() =~= cats@.subrange(0, i as int));
        assert(requests_view(r@) =~= start + catalog_plan(
            d.transport_url@,
            cats@.subrange(0, i + 1),
            extra_view(extra@),
        ));
        i = i + 1;
    }
    assert(cats@.subrange(0, cats.len() as int) =~= cats@);
}

} // verus!
