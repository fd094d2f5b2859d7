//! The example extension that ships with the daemon.

use vstd::prelude::*;

verus! {

/// An extension that adds an example endpoint; it carries no state.
#[derive(Clone, Copy, Debug)]
pub struct ExampleExtension;

impl Default for ExampleExtension {
    fn default() -> (r: ExampleExtension)
        ensures
            r == ExampleExtension,
    {
        ExampleExtension
    }
}

} // verus!
