//! Which file of the front end a request asks for.

use crate::text::{contains, from_chars, has_substring, slice, text_view, to_chars};
use vstd::prelude::*;

verus! {

/// The path `path` of a request names a file of the front end: it begins
/// with a slash and nowhere steps up to a parent directory.
pub open spec fn names_asset(path: Seq<char>) -> bool {
    &&& path.len() > 0
    &&& path[0] == '/'
    &&& !has_substring(path, ".."@)
}

/// The file that the path `path` of a request asks for, relative to the
/// directory of the front end: the index page for the root, and otherwise
/// the path without the slash that it begins with.
pub open spec fn asset_of(path: Seq<char>) -> Option<Seq<char>> {
    if !names_asset(path) {
        None
    } else if path.len() == 1 {
        Some("index.html"@)
    } else {
        Some(path.skip(1))
    }
}

/// Finds the file of the front end that the path of a request asks for, or
/// `None` where the path names no such file.
pub fn asset_path(path: &str) -> (file: Option<String>)
    ensures
        text_view(file) == asset_of(path@),
{
    let chars = to_chars(path);
    if chars.len() == 0 || chars[0] != '/' || contains(&chars, &to_chars("..")) {
        return None;
    }
    if chars.len() == 1 {
        let index = to_chars("index.html");
        return Some(from_chars(&index));
    }
    assert(chars@.subrange(1, chars@.len() as int) =~= chars@.skip(1));
    Some(from_chars(&slice(&chars, 1, chars.len())))
}

} // verus!
