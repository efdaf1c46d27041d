//! The working folders.
use vstd::prelude::*;
use crate::config::{home_view, join_of, expand_tilde_of, Config};

verus! {

#[derive(PartialEq, Eq, Structural, Clone, Copy, Debug)]
pub enum FolderError {
    /// A file, not a folder, stands where the folder belongs.
    NotAFolder,
}

/// What to do about a working folder: `Ok(true)` to create it, `Ok(false)` where
/// it exists, an error where a file stands in its place.
pub fn check_folder(exists: bool, is_dir: bool) -> (r: Result<bool, FolderError>)
    ensures
        r == (if !exists {
            Ok(true)
        } else if !is_dir {
            Err(FolderError::NotAFolder)
        } else {
            Ok(false)
        }),
{
    if !exists {
        Ok(true)
    } else if !is_dir {
        Err(FolderError::NotAFolder)
    } else {
        Ok(false)
    }
}

/// A working folder: its path and the configured name it comes from.
#[derive(Clone, Debug)]
pub struct Folder {
    pub path: String,
    pub name: String,
}

/// The working folders, in the order they are set up: the working folder, then
/// the images' folder inside it.
pub fn setup_folders(config: &Config, home: Option<&str>) -> (r: Vec<Folder>)
    ensures
        r@.len() == 2,
        r@[0].path@ == expand_tilde_of(config.tmp_folder_name@, home_view(home)),
        r@[0].name@ == config.tmp_folder_name@,
        r@[1].path@ == join_of(expand_tilde_of(config.tmp_folder_name@, home_view(home)), config.tmp_iso_folder_name@),
        r@[1].name@ == config.tmp_iso_folder_name@,
{
    let mut v: Vec<Folder> = Vec::new();
    v.push(Folder { path: config.tmp_folder_path(home), name: config.tmp_folder_name.clone() });
    v.push(Folder { path: config.tmp_iso_folder_path(home), name: config.tmp_iso_folder_name.clone() });
    v
}

} // verus!
