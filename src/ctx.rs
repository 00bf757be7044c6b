use crate::addon::Descriptor;
use crate::effects::{Effect, EffectFuture, Effects, Task};
use crate::library::{lookup, LibraryBucket};
use crate::msg::{Internal, Msg};
use vstd::prelude::*;

verus! {

/// The user's profile: the installed providers, in installation order.
#[derive(Debug)]
pub struct Profile {
    pub addons: Vec<Descriptor>,
}

/// State that every view reads: the profile and the library.
#[derive(Debug)]
pub struct Ctx {
    pub profile: Profile,
    pub library: LibraryBucket,
}

/// What a message does to the context: an updated library item is stored,
/// announced as a library change, and written to storage after any earlier
/// writes; every other message changes nothing.
pub open spec fn ctx_updated(old: Ctx, new: Ctx, msg: Msg, r: Effects) -> bool {
    match msg {
        Msg::Internal(Internal::UpdateLibraryItem(item)) => {
            &&& lookup(new.library.items@, item@.id) == Some(item@)
            &&& forall|other: Seq<char>|
                other != item@.id ==> #[trigger] lookup(new.library.items@, other)
                    == lookup(old.library.items@, other)
            &&& old.library.wf() ==> new.library.wf()
            &&& new.library.uid == old.library.uid
            &&& new.profile == old.profile
            &&& r.has_changed
            &&& r.effects@.len() == 2
            &&& r.effects@[0] == Effect::Msg(
                Box::new(Msg::Internal(Internal::LibraryChanged(false))),
            )
            &&& match r.effects@[1] {
                Effect::Future(EffectFuture::Sequential(Task::PersistLibraryItem(x))) => x@
                    == item@,
                _ => false,
            }
        },
        _ => {
            &&& new == old
            &&& !r.has_changed
            &&& r.effects@.len() == 0
        },
    }
}

impl Ctx {
    /// Stores an updated library item, announces the change, and writes the
    /// item to storage after any earlier writes; other messages change nothing.
    pub fn update(&mut self, msg: &Msg) -> (r: Effects)
        ensures
            ctx_updated(*old(self), *final(self), *msg, r),
    {
        match msg {
            Msg::Internal(Internal::UpdateLibraryItem(item)) => {
                self.library.insert(item.clone());
                let mut effects: Vec<Effect> = Vec::new();
                effects.push(Effect::Msg(Box::new(Msg::Internal(Internal::LibraryChanged(false)))));
                effects.push(
                    Effect::Future(EffectFuture::Sequential(Task::PersistLibraryItem(item.clone()))),
                );
                Effects { effects, has_changed: true }
            },
            _ => Effects { effects: Vec::new(), has_changed: false },
        }
    }
}

} // verus!
