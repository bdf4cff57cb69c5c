//! Small decisions of the host application: which file a video URL names, and how a file
//! is shown in the file manager.

use vstd::prelude::*;
use crate::text::{
    before_pattern, chars_of, matches_at, occurs_at, push_text, remove_pattern, same_text,
    take_before, without_pattern,
};

verus! {

/// The scheme of a URL: what stands before its first `://`.
pub open spec fn url_scheme_of(url: Seq<char>) -> Seq<char> {
    before_pattern(url, "://"@)
}

/// The path of the file that a URL names, for a URL that begins with `file://`: the URL
/// without that mark, wherever it occurs.
pub open spec fn file_url_path_of(url: Seq<char>) -> Option<Seq<char>> {
    if occurs_at(url, "file://"@, 0) {
        Some(without_pattern(url, "file://"@))
    } else {
        None
    }
}

pub fn url_scheme(url: &str) -> (scheme: String)
    ensures
        scheme@ == url_scheme_of(url@),
{
    take_before(url, "://")
}

/// The path to look for on disk, if the URL names a local file.
pub fn file_url_path(url: &str) -> (path: Option<String>)
    ensures
        match path {
            Some(path) => Some(path@),
            None => None,
        } == file_url_path_of(url@),
{
    let chars = chars_of(url);
    let mark = chars_of("file://");
    if matches_at(&chars, &mark, 0) {
        Some(remove_pattern(url, "file://"))
    } else {
        None
    }
}

/// The command that shows a file in the file manager of the named operating system, the
/// program first; none where there is no such command.
pub open spec fn reveal_command_of(os: Seq<char>, path: Seq<char>) -> Option<Seq<Seq<char>>> {
    if os == "windows"@ {
        Some(seq!["explorer"@, "/select,"@, path])
    } else if os == "macos"@ {
        Some(seq!["open"@, "-R"@, path])
    } else {
        None
    }
}

pub fn reveal_command(os: &str, path: &str) -> (command: Option<Vec<String>>)
    ensures
        match command {
            Some(command) => Some(command.deep_view()),
            None => None,
        } == reveal_command_of(os@, path@),
{
    let mut command: Vec<String> = Vec::new();
    if same_text(os, "windows") {
        push_text(&mut command, "explorer");
        push_text(&mut command, "/select,");
    } else if same_text(os, "macos") {
        push_text(&mut command, "open");
        push_text(&mut command, "-R");
    } else {
        return None;
    }
    push_text(&mut command, path);
    assert(Some(command.deep_view()) =~= reveal_command_of(os@, path@));
    Some(command)
}

} // verus!
