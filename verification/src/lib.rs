use vstd::prelude::*;

pub mod args;
pub mod bytes_util;
pub mod compat;
pub mod decode;
pub mod errors;
pub mod gas;
pub mod kvlist;
pub mod laws;
pub mod loader;
pub mod module;
pub mod natives;
pub mod options;
pub mod session;
pub mod store;
pub mod types;

verus! {

/// Policy choices for one publication of a module bundle.
///
/// - `force_publish`: skip the compatibility gate when updating an existing
///   module (ownership, duplicate and bundle-level checks still apply).
/// - `only_new_module`: reject any update of an already published module.
#[derive(Copy, Clone, Eq, PartialEq, Structural, Debug)]
pub struct PublishModuleBundleOption {
    pub force_publish: bool,
    pub only_new_module: bool,
}

impl Default for PublishModuleBundleOption {
    /// Both policies off: ordinary compatibility-checked publication.
    fn default() -> (r: Self)
        ensures
            !r.force_publish,
            !r.only_new_module,
    {
        PublishModuleBundleOption { force_publish: false, only_new_module: false }
    }
}

} // verus!
