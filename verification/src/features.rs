//! Feature flags, written once at startup.

use vstd::prelude::*;

verus! {

/// The feature names enabled in this process: explicit state constructed
/// at startup and handed to the components that need it. `None` until
/// `set_features` has run.
#[derive(Debug)]
pub struct FeatureFlags {
    pub features: Option<Vec<&'static str>>,
}

impl FeatureFlags {
    /// Flags with nothing recorded yet.
    pub fn new() -> (f: FeatureFlags)
        ensures
            f.features is None,
    {
        FeatureFlags { features: None }
    }
}

/// Record the enabled feature names.
pub fn set_features(flags: &mut FeatureFlags, features: Vec<&'static str>)
    ensures
        final(flags).features == Some(features),
{
    flags.features = Some(features);
}

} // verus!
