use vstd::prelude::*;

use crate::utils::ends_with;

verus! {

/// Relies on `which::which`: the first executable file named `name` in the
/// directories of `PATH` (or `name` itself when it is a path), `None` when the
/// lookup fails. What it finds depends on the environment and on the disk;
/// for a name without `/` it is a search directory joined with the name, so
/// the path found ends in the name.
#[verifier::external_body]
pub(crate) fn which_path(name: &str) -> (r: Option<String>)
    ensures
        r matches Some(p) ==> ((forall|i: int| 0 <= i < name@.len() ==> name@[i] != '/')
            ==> ends_with(p@, name@)),
{
    which::which(name).ok().map(|p| p.to_string_lossy().into_owned())
}

} // verus!
