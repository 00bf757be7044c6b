use crate::addon::{requests_view, RequestView, ResourceRequest};
use crate::effects::{Effect, EffectFuture, Effects, Task};
use vstd::prelude::*;

verus! {

/// Data that arrives later: not yet, empty, there, or failed.
#[derive(Debug)]
pub enum Loadable<R, E> {
    Loading,
    ReadyEmpty,
    Ready(R),
    Error(E),
}

impl<R, E> Loadable<R, E> {
    /// Whether the data has arrived, empty or not.
    pub fn is_ready(&self) -> (r: bool)
        ensures
            r == (self is Ready || self is ReadyEmpty),
    {
        match self {
            Loadable::Ready(_) | Loadable::ReadyEmpty => true,
            _ => false,
        }
    }
}

/// One planned request and what has come of it; no content means not started.
#[derive(Debug)]
pub struct ResourceLoadable<T> {
    pub request: ResourceRequest,
    pub content: Option<Loadable<T, String>>,
}

/// The requests of a list of slots, in order.
pub open spec fn slot_requests<T>(s: Seq<ResourceLoadable<T>>) -> Seq<RequestView> {
    s.map_values(|x: ResourceLoadable<T>| x.request@)
}

/// Effect `e` fetches `r`, concurrently with the others.
pub open spec fn fetches(e: Effect, r: RequestView) -> bool {
    match e {
        Effect::Future(EffectFuture::Concurrent(Task::FetchResource(q))) => q@ == r,
        _ => false,
    }
}

/// `p` is the first slot whose request is `r`.
pub open spec fn first_slot<T>(s: Seq<ResourceLoadable<T>>, r: RequestView, p: int) -> bool {
    0 <= p < s.len() && s[p].request@ == r && forall|q: int| 0 <= q < p ==> s[q].request@ != r
}

/// The content that a result gives a loading slot.
pub open spec fn loaded<T>(result: Result<T, String>) -> Loadable<T, String> {
    match result {
        Ok(v) => Loadable::Ready(v),
        Err(e) => Loadable::Error(e),
    }
}

/// The slot is waiting for its result.
pub open spec fn is_loading<T>(c: Option<Loadable<T, String>>) -> bool {
    c matches Some(Loadable::Loading)
}

/// Slots after a result for `r` arrives: the first slot for `r`, if it is
/// loading, takes the result; otherwise nothing changes.
pub open spec fn result_applied<T>(
    s: Seq<ResourceLoadable<T>>,
    r: RequestView,
    result: Result<T, String>,
) -> Seq<ResourceLoadable<T>> {
    if exists|p: int| first_slot(s, r, p) && is_loading(s[p].content) {
        let p = choose|p: int| first_slot(s, r, p) && is_loading(s[p].content);
        s.update(p, ResourceLoadable { request: s[p].request, content: Some(loaded(result)) })
    } else {
        s
    }
}

/// Staleness: a result for a request that the current plan does not hold
/// leaves every slot as it was.
pub proof fn lemma_stale_result_ignored<T>(
    s: Seq<ResourceLoadable<T>>,
    r: RequestView,
    result: Result<T, String>,
)
    requires
        !slot_requests(s).contains(r),
    ensures
        result_applied(s, r, result) == s,
{
    assert forall|p: int| !first_slot(s, r, p) by {
        if first_slot(s, r, p) {
            assert(slot_requests(s)[p] == r);
        }
    }
}

/// Replaces the slots with one loading slot per planned request and fetches
/// each, unless the slots already hold exactly these requests, in which case
/// nothing changes.
pub fn resources_requested<T>(
    resources: &mut Vec<ResourceLoadable<T>>,
    requests: Vec<ResourceRequest>,
) -> (r: Effects)
    ensures
        slot_requests(old(resources)@) == requests_view(requests@) ==> {
            &&& final(resources)@ == old(resources)@
            &&& !r.has_changed
            &&& r.effects@.len() == 0
        },
        slot_requests(old(resources)@) != requests_view(requests@) ==> {
            &&& slot_requests(final(resources)@) == requests_view(requests@)
            &&& forall|i: int|
                0 <= i < final(resources)@.len() ==> #[trigger] final(resources)@[i].content
                    == Some(Loadable::<T, String>::Loading)
            &&& r.has_changed
            &&& r.effects@.len() == requests@.len()
            &&& forall|i: int|
                0 <= i < requests@.len() ==> fetches(#[trigger] r.effects@[i], requests@[i]@)
        },
{
    if same_requests(resources, &requests) {
        return Effects { effects: Vec::new(), has_changed: false };
    }
    let ghost all = requests@;
    let mut requests = requests;
    let mut slots: Vec<ResourceLoadable<T>> = Vec::new();
    let mut effects: Vec<Effect> = Vec::new();
    while requests.len() > 0
        invariant
            slots.len() == effects.len(),
            slots.len() + requests.len() == all.len(),
            requests@ == all.subrange(slots.len() as int, all.len() as int),
            forall|i: int| 0 <= i < slots.len() ==> #[trigger] slots@[i].request@ == all[i]@,
            forall|i: int|
                0 <= i < slots.len() ==> #[trigger] slots@[i].content == Some(
                    Loadable::<T, String>::Loading,
                ),
            forall|i: int| 0 <= i < effects.len() ==> fetches(#[trigger] effects@[i], all[i]@),
        decreases requests.len(),
    {
        let request = requests.remove(0);
        let fetch = request.clone();
        effects.push(Effect::Future(EffectFuture::Concurrent(Task::FetchResource(fetch))));
        slots.push(ResourceLoadable { request, content: Some(Loadable::Loading) });
    }
    *resources = slots;
    assert(slot_requests(resources@) =~= requests_view(all));
    Effects { effects, has_changed: true }
}

fn same_requests<T>(resources: &Vec<ResourceLoadable<T>>, requests: &Vec<ResourceRequest>) -> (r:
    bool)
    ensures
        r == (slot_requests(resources@) == requests_view(requests@)),
{
    if resources.len() != requests.len() {
        assert(slot_requests(resources@).len() != requests_view(requests@).len());
        return false;
    }
    let mut i: usize = 0;
    while i < requests.len()
        invariant
            resources.len() == requests.len(),
            i <= requests.len(),
            forall|k: int| 0 <= k < i ==> #[trigger] resources@[k].request@ == requests@[k]@,
        decreases requests.len() - i,
    {
        if !(resources[i].request == requests[i]) {
            assert(slot_requests(resources@)[i as int] != requests_view(requests@)[i as int]);
            return false;
        }
        i = i + 1;
    }
    assert(slot_requests(resources@) =~= requests_view(requests@));
    true
}

/// Applies the result of fetching `request`: the first slot for it, if it is
/// loading, becomes ready or failed; a result that no loading slot awaits
/// (a stale one) changes nothing.
pub fn resource_result<T>(
    resources: &mut Vec<ResourceLoadable<T>>,
    request: &ResourceRequest,
    result: Result<T, String>,
) -> (r: Effects)
    ensures
        final(resources)@ == result_applied(old(resources)@, request@, result),
        r.has_changed == (final(resources)@ != old(resources)@),
        r.has_changed == exists|p: int|
            first_slot(old(resources)@, request@, p) && is_loading(old(resources)@[p].content),
        !r.has_changed ==> *final(resources) == *old(resources),
        r.effects@.len() == 0,
{
    let ghost s = resources@;
    let mut i: usize = 0;
    while i < resources.len()
        invariant
            i <= resources.len(),
            resources@ == s,
            s == old(resources)@,
            *resources == *old(resources),
            forall|q: int| 0 <= q < i ==> resources@[q].request@ != request@,
        decreases resources.len() - i,
    {
        if resources[i].request == *request {
            assert(first_slot(s, request@, i as int));
            assert forall|p: int| first_slot(s, request@, p) implies p == i by {
                if p > i {
                    assert(s[i as int].request@ == request@);
                }
            }
            let loading = match &resources[i].content {
                Some(Loadable::Loading) => true,
                _ => false,
            };
            if loading {
                let ghost res = result;
                let content = match result {
                    Ok(v) => Loadable::Ready(v),
                    Err(e) => Loadable::Error(e),
                };
                resources[i].content = Some(content);
                assert(resources@ == s.update(
                    i as int,
                    ResourceLoadable { request: s[i as int].request, content: Some(loaded(res)) },
                ));
                assert(first_slot(s, request@, i as int) && is_loading(s[i as int].content));
                let ghost p = choose|p: int|
                    first_slot(s, request@, p) && is_loading(s[p].content);
                assert(p == i);
                assert(resources@ != s) by {
                    assert(!(resources@[i as int].content matches Some(Loadable::Loading)));
                }
                return Effects { effects: Vec::new(), has_changed: true };
            }
            return Effects { effects: Vec::new(), has_changed: false };
        }
        i = i + 1;
    }
    assert forall|p: int| !first_slot(s, request@, p) by {
        if first_slot(s, request@, p) {
            assert(s[p].request@ == request@);
        }
    }
    Effects { effects: Vec::new(), has_changed: false }
}

} // verus!
