//! Checks and choices of the sticker edits: moving a sticker to another pack,
//! renaming it, and saving a new one inside the library.
use vstd::prelude::*;
use vstd::string::StringExecFns;
use crate::ingest::{within, path_within, pack_name_allowed};
use crate::text::{occurs_in, same_text};

verus! {

/// A move is refused when the pack name contains `..`.
pub fn check_move_pack(pack: &str) -> (r: Result<(), String>)
    ensures
        r is Ok <==> !occurs_in(".."@, pack@),
        r matches Err(e) ==> e@ == "Invalid pack name: Traversal characters (..) are not allowed"@,
{
    if pack_name_allowed(pack) {
        Ok(())
    } else {
        Err(String::from_str("Invalid pack name: Traversal characters (..) are not allowed"))
    }
}

/// A move is refused when its target folder (by path components) is not inside
/// the library folder.
pub fn check_move_target(root: &Vec<String>, target: &Vec<String>) -> (r: Result<(), String>)
    ensures
        r is Ok <==> within(root.deep_view(), target.deep_view()),
        r matches Err(e) ==> e@
            == "Security Violation: Cannot move sticker outside of library directory."@,
{
    if path_within(root, target) {
        Ok(())
    } else {
        Err(String::from_str("Security Violation: Cannot move sticker outside of library directory."))
    }
}

/// A new sticker is refused when its pack folder (canonical path components) is
/// not inside the canonical library folder.
pub fn check_commit_target(root: &Vec<String>, target: &Vec<String>) -> (r: Result<(), String>)
    ensures
        r is Ok <==> within(root.deep_view(), target.deep_view()),
        r matches Err(e) ==> e@ == "Security Violation: Cannot save sticker outside of library root."@,
{
    if path_within(root, target) {
        Ok(())
    } else {
        Err(String::from_str("Security Violation: Cannot save sticker outside of library root."))
    }
}

/// The thumbnail a moved or edited sticker's row points to: the renamed thumbnail
/// when the old one existed (and was renamed), else the sticker file itself.
pub fn thumbnail_after_rename(old_thumbnail_existed: bool, new_thumbnail: String, new_path: String) -> (r:
    String)
    ensures
        r == if old_thumbnail_existed {
            new_thumbnail
        } else {
            new_path
        },
{
    if old_thumbnail_existed {
        new_thumbnail
    } else {
        new_path
    }
}

/// An edited sticker's thumbnail is looked for as WebP first; only when there is
/// none is it taken to be a GIF.
pub fn edit_thumbnail_is_gif(webp_thumbnail_exists: bool) -> (r: bool)
    ensures
        r == !webp_thumbnail_exists,
{
    !webp_thumbnail_exists
}

/// Whether an edit changes the sticker's path, so that the file, its thumbnail
/// and its row must follow.
pub fn path_changes(old_path: &str, new_path: &str) -> (r: bool)
    ensures
        r == (old_path@ != new_path@),
{
    !same_text(old_path, new_path)
}

} // verus!
