use crate::ctx::{ctx_updated, Ctx};
use crate::effects::{Effect, EffectFuture, Effects, Task};
use crate::meta_details::{meta_updated, MetaDetails};
use crate::msg::Msg;
use vstd::prelude::*;

verus! {

/// All application state: the shared context and the views built on it.
#[derive(Debug)]
pub struct Model {
    pub ctx: Ctx,
    pub meta_details: MetaDetails,
}

/// What a message does to the model: the context takes it first, then the
/// view with the new context; their effects join in that order, and the model
/// changed when either part did.
pub open spec fn model_updated(old: Model, new: Model, msg: Msg, r: Effects) -> bool {
    exists|c: Effects, m: Effects|
        {
            &&& ctx_updated(old.ctx, new.ctx, msg, c)
            &&& meta_updated(old.meta_details, new.meta_details, msg, new.ctx, m)
            &&& r.effects@ == c.effects@ + m.effects@
            &&& r.has_changed == (c.has_changed || m.has_changed)
        }
}

impl Model {
    pub open spec fn wf(&self) -> bool {
        self.meta_details.wf()
    }

    /// Applies a message to every stateful part, the context first, and joins
    /// their effects in that order; changed when any part changed.
    pub fn update(&mut self, msg: &Msg) -> (r: Effects)
        requires
            old(self).wf(),
        ensures
            final(self).wf(),
            model_updated(*old(self), *final(self), *msg, r),
    {
        let c = self.ctx.update(msg);
        let m = self.meta_details.update(msg, &self.ctx);
        let ghost (ce, me) = (c, m);
        let r = c.join(m);
        assert(ctx_updated(old(self).ctx, self.ctx, *msg, ce));
        assert(meta_updated(old(self).meta_details, self.meta_details, *msg, self.ctx, me));
        assert(r.effects@ == ce.effects@ + me.effects@ && r.has_changed == (ce.has_changed
            || me.has_changed));
        r
    }
}

/// What one step of the runtime asks of the host.
pub struct Step {
    /// Futures to start now, in order.
    pub started: Vec<EffectFuture>,
    /// Whether subscribers are to be told of a new state.
    pub notify: bool,
    /// Whether the message applied in this step changed state.
    pub has_changed: bool,
    /// The effects that the applied message produced.
    pub issued: Ghost<Seq<Effect>>,
}

/// The single writer of the model. Pending work waits in `queue`, first
/// first: messages, applied one at a time, and futures to start. The effects
/// of an applied message go before the work already waiting, in order, so a
/// chain of follow-up messages completes before anything issued after it.
/// Sequential tasks wait in `sequential` and start one at a time: the next
/// only once the previous one's message has been applied.
#[derive(Debug)]
pub struct Runtime {
    pub model: Model,
    pub queue: Vec<Effect>,
    /// Some message applied since the last notification changed state.
    pub changed: bool,
    pub sequential: Vec<Task>,
    /// A sequential task is in flight, or its message is not yet applied.
    pub sequential_running: bool,
    /// The running sequential task's message has been handed in.
    pub sequential_resolved: bool,
}

/// One step took the first pending piece of work. A message was applied and
/// its effects went, in order, before the rest; a concurrent future starts;
/// a sequential task joins the sequential queue. Subscribers are notified
/// once the queue has drained, exactly when some message since the last
/// notification changed state. The first waiting sequential task starts
/// only when none runs, or the running one's message is applied and the
/// queue has drained.
pub open spec fn stepped(old: Runtime, new: Runtime, s: Step) -> bool {
    let front = old.queue@[0];
    let rest = old.queue@.drop_first();
    let concurrent = match front {
        Effect::Future(EffectFuture::Concurrent(t)) => seq![EffectFuture::Concurrent(t)],
        _ => seq![],
    };
    let waiting = old.sequential@ + match front {
        Effect::Future(EffectFuture::Sequential(t)) => seq![t],
        _ => seq![],
    };
    let settled = new.queue@.len() == 0;
    let freed = !old.sequential_running || (old.sequential_resolved && settled);
    &&& match front {
        Effect::Msg(m) => {
            &&& new.queue@ == s.issued@ + rest
            &&& exists|e: Effects|
                model_updated(old.model, new.model, *m, e) && s.issued@ == e.effects@
                    && s.has_changed == e.has_changed
        },
        Effect::Future(_) => new.queue@ == rest && !s.has_changed && new.model == old.model,
    }
    &&& s.notify == (settled && (old.changed || s.has_changed))
    &&& new.changed == (!settled && (old.changed || s.has_changed))
    &&& if freed && waiting.len() > 0 {
        &&& s.started@ == concurrent.push(EffectFuture::Sequential(waiting[0]))
        &&& new.sequential@ == waiting.drop_first()
        &&& new.sequential_running
        &&& !new.sequential_resolved
    } else {
        &&& s.started@ == concurrent
        &&& new.sequential@ == waiting
        &&& new.sequential_running == (old.sequential_running && !freed)
        &&& new.sequential_resolved == (old.sequential_resolved && !freed)
    }
}

/// Sequential order: while a sequential task runs and its message has not yet
/// been applied with the queue drained, a step starts no sequential task.
pub proof fn lemma_sequential_waits(old: Runtime, new: Runtime, s: Step)
    requires
        stepped(old, new, s),
        old.sequential_running,
        !(old.sequential_resolved && new.queue@.len() == 0),
    ensures
        forall|i: int| 0 <= i < s.started@.len() ==> #[trigger] s.started@[i] is Concurrent,
        new.sequential_running,
{
}

/// Notification: a step whose update left state unchanged, after steps that
/// changed nothing since the last notification, notifies nobody; a step that
/// changed state notifies once the queue has drained.
pub proof fn lemma_notify_only_on_change(old: Runtime, new: Runtime, s: Step)
    requires
        stepped(old, new, s),
    ensures
        !old.changed && !s.has_changed ==> !s.notify && !new.changed,
        s.has_changed && new.queue@.len() == 0 ==> s.notify,
        s.has_changed && new.queue@.len() > 0 ==> new.changed,
{
}

impl Runtime {
    pub open spec fn wf(&self) -> bool {
        &&& self.model.wf()
        &&& self.sequential_resolved ==> self.sequential_running
    }

    /// A runtime over `model` with nothing waiting.
    pub fn new(model: Model) -> (r: Runtime)
        requires
            model.wf(),
        ensures
            r.wf(),
            r.model == model,
            r.queue@.len() == 0,
            !r.changed,
            r.sequential@.len() == 0,
            !r.sequential_running,
    {
        Runtime {
            model,
            queue: Vec::new(),
            changed: false,
            sequential: Vec::new(),
            sequential_running: false,
            sequential_resolved: false,
        }
    }

    /// Hands in a message from outside, or the message of a concurrent task.
    pub fn dispatch(&mut self, msg: Msg)
        ensures
            final(self).queue@ == old(self).queue@.push(Effect::Msg(Box::new(msg))),
            final(self).model == old(self).model,
            final(self).changed == old(self).changed,
            final(self).sequential == old(self).sequential,
            final(self).sequential_running == old(self).sequential_running,
            final(self).sequential_resolved == old(self).sequential_resolved,
    {
        self.queue.push(Effect::Msg(Box::new(msg)));
    }

    /// Hands in the message of the running sequential task.
    pub fn resolve_sequential(&mut self, msg: Msg)
        requires
            old(self).sequential_running,
        ensures
            final(self).queue@ == old(self).queue@.push(Effect::Msg(Box::new(msg))),
            final(self).sequential_resolved,
            final(self).sequential_running,
            final(self).model == old(self).model,
            final(self).changed == old(self).changed,
            final(self).sequential == old(self).sequential,
    {
        self.queue.push(Effect::Msg(Box::new(msg)));
        self.sequential_resolved = true;
    }

    /// Takes the first pending piece of work, if any (see `stepped`).
    pub fn step(&mut self) -> (r: Option<Step>)
        requires
            old(self).wf(),
        ensures
            final(self).wf(),
            old(self).queue@.len() == 0 ==> r is None && *final(self) == *old(self),
            old(self).queue@.len() > 0 ==> (r matches Some(s) && stepped(*old(self), *final(self), s)),
    {
        if self.queue.len() == 0 {
            return None;
        }
        let ghost q0 = self.queue@;
        let front = self.queue.remove(0);
        let ghost front_g = front;
        assert(self.queue@ =~= q0.drop_first());
        let mut started: Vec<EffectFuture> = Vec::new();
        let mut has_changed = false;
        let ghost mut issued: Seq<Effect> = Seq::empty();
        match front {
            Effect::Msg(m) => {
                let effects = self.model.update(&*m);
                let ghost eg = effects;
                has_changed = effects.has_changed;
                proof {
                    issued = effects.effects@;
                }
                let mut list = effects.effects;
                let mut rest = Vec::new();
                std::mem::swap(&mut rest, &mut self.queue);
                list.append(&mut rest);
                self.queue = list;
                assert(self.queue@ =~= issued + q0.drop_first());
                assert(model_updated(old(self).model, self.model, *m, eg) && issued == eg.effects@
                    && has_changed == eg.has_changed);
            },
            Effect::Future(EffectFuture::Concurrent(t)) => {
                started.push(EffectFuture::Concurrent(t));
            },
            Effect::Future(EffectFuture::Sequential(t)) => {
                self.sequential.push(t);
            },
        }
        proof {
            let concurrent = match front_g {
                Effect::Future(EffectFuture::Concurrent(t)) => seq![EffectFuture::Concurrent(t)],
                _ => seq![],
            };
            let waiting = old(self).sequential@ + match front_g {
                Effect::Future(EffectFuture::Sequential(t)) => seq![t],
                _ => seq![],
            };
            assert(started@ =~= concurrent);
            assert(self.sequential@ =~= waiting);
        }
        let settled = self.queue.len() == 0;
        let notify = settled && (self.changed || has_changed);
        self.changed = !settled && (self.changed || has_changed);
        let freed = !self.sequential_running || (self.sequential_resolved && settled);
        if freed {
            self.sequential_running = false;
            self.sequential_resolved = false;
            if self.sequential.len() > 0 {
                let t = self.sequential.remove(0);
                started.push(EffectFuture::Sequential(t));
                self.sequential_running = true;
            }
        }
        Some(Step { started, notify, has_changed, issued: Ghost(issued) })
    }
}

} // verus!
