//! Path related helpers.

use vstd::prelude::*;

verus! {

/// Whether `found` is the place of the project root among the directories
/// from the start upwards: the nearest one that holds a `Cargo.toml`, or none
/// where no directory holds one. `has_cargo_toml[i]` says whether the
/// directory `i` levels above the start holds a `Cargo.toml`.
pub open spec fn is_project_root(has_cargo_toml: Seq<bool>, found: Option<usize>) -> bool {
    match found {
        Some(i) => {
            &&& i < has_cargo_toml.len()
            &&& has_cargo_toml[i as int]
            &&& forall|j: int| 0 <= j < i ==> !#[trigger] has_cargo_toml[j]
        },
        None => forall|j: int| 0 <= j < has_cargo_toml.len() ==> !#[trigger] has_cargo_toml[j],
    }
}

/// Searches for the project root, the directory that holds `Cargo.toml`,
/// from the start directory upwards. The caller looks into each directory,
/// the start first and the file system's root last, and hands in what it
/// found; the answer is how many levels above the start the project root
/// lies.
pub fn find_project_root(has_cargo_toml: &[bool]) -> (found: Option<usize>)
    ensures
        is_project_root(has_cargo_toml@, found),
{
    let mut i: usize = 0;
    while i < has_cargo_toml.len()
        invariant
            i <= has_cargo_toml.len(),
            forall|j: int| 0 <= j < i ==> !#[trigger] has_cargo_toml@[j],
        decreases has_cargo_toml.len() - i,
    {
        if has_cargo_toml[i] {
            return Some(i);
        }
        i += 1;
    }
    None
}

} // verus!
