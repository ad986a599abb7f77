//! Persisted preferences. Loading and saving them through the on-disk
//! config store happens at the process edge; the core only holds the
//! values.

use vstd::prelude::*;

verus! {

fn default_skip_overwrite_warning() -> (r: bool)
    ensures
        r == false,
{
    false
}

/// The user's persisted preferences.
pub struct AppConfig {
    pub skip_overwrite_disclaimer: bool,
}

impl Default for AppConfig {
    fn default() -> (r: Self)
        ensures
            r.skip_overwrite_disclaimer == false,
    {
        AppConfig { skip_overwrite_disclaimer: default_skip_overwrite_warning() }
    }
}

impl Clone for AppConfig {
    fn clone(&self) -> (r: Self)
        ensures
            r == *self,
    {
        AppConfig { skip_overwrite_disclaimer: self.skip_overwrite_disclaimer }
    }
}

} // verus!
