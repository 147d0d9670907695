//! Where the images of a job are found and where the results go.

use vstd::prelude::*;

verus! {

/// The path from which the image called `name` is read: `name` inside the
/// directory `uploads`.
pub fn input_path(name: &str) -> (path: String)
    ensures
        path@ == "uploads/"@ + name@,
{
    let mut path = String::from_str("uploads/");
    path.append(name);
    path
}

/// The path to which the transformed image called `name` is written: `name`
/// inside the directory `output`.
pub fn output_path(name: &str) -> (path: String)
    ensures
        path@ == "output/"@ + name@,
{
    let mut path = String::from_str("output/");
    path.append(name);
    path
}

} // verus!
