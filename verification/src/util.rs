//! Util functions

use vstd::prelude::*;

verus! {

/// List all folders for a given path
///
/// * `subfolders`: the folders found directly under `folder`
/// * `folder`: the folder that was searched
/// * `with_base`: whether `folder` itself is offered too, after the others
pub fn list_folders(subfolders: Vec<String>, folder: String, with_base: bool) -> (folders: Vec<
    String,
>)
    ensures
        with_base ==> folders.deep_view() == subfolders.deep_view().push(folder@),
        !with_base ==> folders.deep_view() == subfolders.deep_view(),
{
    let mut folder_paths = subfolders;
    if with_base {
        folder_paths.push(folder);
    }
    folder_paths
}

} // verus!
