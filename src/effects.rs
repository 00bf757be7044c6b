use crate::addon::ResourceRequest;
use crate::library::LibraryItem;
use crate::msg::Msg;
use vstd::prelude::*;

verus! {

/// Outside work that resolves to exactly one message: what the host performs
/// for a future effect.
#[derive(Debug)]
pub enum Task {
    /// Fetch a resource from a provider; resolves to a resource result.
    FetchResource(ResourceRequest),
    /// Write a library item to storage; resolves to a library persistence result.
    PersistLibraryItem(LibraryItem),
}

/// A task with its scheduling policy.
#[derive(Debug)]
pub enum EffectFuture {
    /// Starts at once; its result may land in any order relative to the others.
    Concurrent(Task),
    /// Starts only after every earlier sequential task has resolved and its
    /// message has been applied.
    Sequential(Task),
}

/// Work that follows a state transition.
#[derive(Debug)]
pub enum Effect {
    /// A follow-up message, applied before the effects issued after it.
    Msg(Box<Msg>),
    Future(EffectFuture),
}

/// The ordered effects of an update, and whether the update changed state.
#[derive(Debug)]
pub struct Effects {
    pub effects: Vec<Effect>,
    pub has_changed: bool,
}

impl Effects {
    /// No effects; the state changed.
    pub fn none() -> (r: Effects)
        ensures
            r.effects@.len() == 0,
            r.has_changed,
    {
        Effects { effects: Vec::new(), has_changed: true }
    }

    /// One effect; the state changed.
    pub fn one(effect: Effect) -> (r: Effects)
        ensures
            r.effects@ == seq![effect],
            r.has_changed,
    {
        let mut effects = Vec::new();
        effects.push(effect);
        Effects { effects, has_changed: true }
    }

    /// These effects in order; the state changed.
    pub fn many(effects: Vec<Effect>) -> (r: Effects)
        ensures
            r.effects@ == effects@,
            r.has_changed,
    {
        Effects { effects, has_changed: true }
    }

    /// One follow-up message; the state changed.
    pub fn msg(msg: Msg) -> (r: Effects)
        ensures
            r.effects@.len() == 1,
            r.effects@[0] is Msg,
            r.effects@[0]->Msg_0 == Box::new(msg),
            r.has_changed,
    {
        Effects::one(Effect::Msg(Box::new(msg)))
    }

    /// One future; the state changed.
    pub fn future(future: EffectFuture) -> (r: Effects)
        ensures
            r.effects@ == seq![Effect::Future(future)],
            r.has_changed,
    {
        Effects::one(Effect::Future(future))
    }

    /// Follow-up messages in order; the state changed.
    pub fn msgs(msgs: Vec<Msg>) -> (r: Effects)
        ensures
            r.effects@.len() == msgs@.len(),
            forall|i: int| 0 <= i < msgs@.len() ==> #[trigger] r.effects@[i] == Effect::Msg(Box::new(msgs@[i])),
            r.has_changed,
    {
        let mut effects: Vec<Effect> = Vec::new();
        let mut msgs = msgs;
        let ghost all = msgs@;
        while msgs.len() > 0
            invariant
                effects.len() + msgs.len() == all.len(),
                msgs@ == all.subrange(effects.len() as int, all.len() as int),
                forall|i: int| 0 <= i < effects.len() ==> #[trigger] effects@[i] == Effect::Msg(Box::new(all[i])),
            decreases msgs.len(),
        {
            let m = msgs.remove(0);
            effects.push(Effect::Msg(Box::new(m)));
        }
        Effects { effects, has_changed: true }
    }

    /// Futures in order; the state changed.
    pub fn futures(futures: Vec<EffectFuture>) -> (r: Effects)
        ensures
            r.effects@.len() == futures@.len(),
            forall|i: int| 0 <= i < futures@.len() ==> #[trigger] r.effects@[i] == Effect::Future(futures@[i]),
            r.has_changed,
    {
        let mut effects: Vec<Effect> = Vec::new();
        let mut futures = futures;
        let ghost all = futures@;
        while futures.len() > 0
            invariant
                effects.len() + futures.len() == all.len(),
                futures@ == all.subrange(effects.len() as int, all.len() as int),
                forall|i: int| 0 <= i < effects.len() ==> #[trigger] effects@[i] == Effect::Future(all[i]),
            decreases futures.len(),
        {
            let f = futures.remove(0);
            effects.push(Effect::Future(f));
        }
        Effects { effects, has_changed: true }
    }

    /// The same effects, recorded as leaving the state unchanged.
    pub fn unchanged(self) -> (r: Effects)
        ensures
            r.effects@ == self.effects@,
            !r.has_changed,
    {
        Effects { effects: self.effects, has_changed: false }
    }

    /// These effects followed by `other`'s; changed when either changed.
    pub fn join(self, other: Effects) -> (r: Effects)
        ensures
            r.effects@ == self.effects@ + other.effects@,
            r.has_changed == (self.has_changed || other.has_changed),
    {
        let mut effects = self.effects;
        let mut more = other.effects;
        effects.append(&mut more);
        Effects { effects, has_changed: self.has_changed || other.has_changed }
    }
}

} // verus!
