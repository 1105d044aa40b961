use vstd::prelude::*;

verus! {

/// The application that creates application instances.
pub struct ApplicationInfo<'a> {
    pub name: &'a str,
}

} // verus!
