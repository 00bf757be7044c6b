use crate::addon::ResourceRequest;
use crate::library::LibraryItem;
use crate::meta_details::Selected;
use crate::resource::ResourceResponse;
use vstd::prelude::*;

verus! {

/// What a view is asked to load.
#[derive(Debug)]
pub enum ActionLoad {
    MetaDetails(Selected),
}

/// Actions of the title details view.
#[derive(Debug)]
pub enum ActionMetaDetails {
    /// Mark a video (by id) watched or not.
    MarkAsWatched(String, bool),
}

/// An intent from outside the core.
#[derive(Debug)]
pub enum Action {
    Load(ActionLoad),
    Unload,
    MetaDetails(ActionMetaDetails),
}

/// A message that the core makes itself.
#[derive(Debug)]
pub enum Internal {
    /// The outcome of fetching a request from a provider.
    ResourceRequestResult(ResourceRequest, Result<ResourceResponse, String>),
    /// The library changed; `true` once the change is in storage.
    LibraryChanged(bool),
    /// Store this version of a library item.
    UpdateLibraryItem(LibraryItem),
}

/// A state-change input.
#[derive(Debug)]
pub enum Msg {
    Action(Action),
    Internal(Internal),
}

} // verus!
