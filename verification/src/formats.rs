//! Format classification: which file paths name a video the converter
//! accepts, judged by the final dot-delimited extension alone.

use vstd::prelude::*;
use crate::text::{eq_lowered, find_last, last_idx, matches_lower};

verus! {

/// The file-name part of a path: everything after the last `/`, or the
/// whole path when no `/` occurs.
pub open spec fn file_name_of(path: Seq<char>) -> Seq<char> {
    path.subrange(last_idx(path, '/') + 1, path.len() as int)
}

/// The extension of a path: the part of its file name after the last `.`,
/// or nothing when the file name holds no `.`, or only a leading one.
pub open spec fn ext_of(path: Seq<char>) -> Option<Seq<char>> {
    let name = file_name_of(path);
    let di = last_idx(name, '.');
    if di <= 0 {
        None
    } else {
        Some(name.subrange(di + 1, name.len() as int))
    }
}

/// Whether `e`, once ASCII letter case is ignored, is one of the ten
/// supported video extensions.
pub open spec fn spec_supported_ext(e: Seq<char>) -> bool {
    ||| matches_lower(e, "mp4"@)
    ||| matches_lower(e, "webm"@)
    ||| matches_lower(e, "mpg"@)
    ||| matches_lower(e, "avi"@)
    ||| matches_lower(e, "mov"@)
    ||| matches_lower(e, "m4v"@)
    ||| matches_lower(e, "flv"@)
    ||| matches_lower(e, "mkv"@)
    ||| matches_lower(e, "wmv"@)
    ||| matches_lower(e, "3gp"@)
}

/// Whether the converter accepts `path`: it must carry an extension, and
/// that extension, in any letter case, must be in the supported set.
pub open spec fn spec_is_supported(path: Seq<char>) -> bool {
    match ext_of(path) {
        Some(e) => spec_supported_ext(e),
        None => false,
    }
}

/// A path is supported exactly when it carries an extension and that
/// extension, in any letter case, is one of the fixed supported set; a
/// path with no extension is never supported.  Only the final
/// dot-delimited segment of the file name counts as the extension.
pub proof fn lemma_supported_characterization(path: Seq<char>)
    ensures
        spec_is_supported(path) <==> (ext_of(path) matches Some(e) && spec_supported_ext(e)),
        ext_of(path) is None ==> !spec_is_supported(path),
{
}

/// The ten supported extensions, lowercase, in their fixed order.
pub open spec fn supported_formats_seq() -> Seq<Seq<char>> {
    seq!["mp4"@, "webm"@, "mpg"@, "avi"@, "mov"@, "m4v"@, "flv"@, "mkv"@, "wmv"@, "3gp"@]
}

/// The supported extensions as owned strings, in their fixed order.
pub fn supported_formats() -> (r: Vec<String>)
    ensures
        r@.len() == supported_formats_seq().len(),
        forall|i: int| 0 <= i < r@.len() ==> (#[trigger] r@[i])@ == supported_formats_seq()[i],
{
    let mut v: Vec<String> = Vec::new();
    v.push(String::from_str("mp4"));
    v.push(String::from_str("webm"));
    v.push(String::from_str("mpg"));
    v.push(String::from_str("avi"));
    v.push(String::from_str("mov"));
    v.push(String::from_str("m4v"));
    v.push(String::from_str("flv"));
    v.push(String::from_str("mkv"));
    v.push(String::from_str("wmv"));
    v.push(String::from_str("3gp"));
    v
}

/// Decides whether `path` names a file of a supported video format: its
/// extension (the segment of the file name after the last dot), lowered
/// to ASCII lowercase, must be one of the ten supported extensions.
pub fn is_supported_format(path: &str) -> (r: bool)
    ensures
        r == spec_is_supported(path@),
{
    let n = path.unicode_len();
    let start: usize = match find_last(path, '/') {
        Some(i) => i + 1,
        None => 0,
    };
    let name = path.substring_char(start, n);
    proof {
        assert(name@ =~= file_name_of(path@));
    }
    let name_len = name.unicode_len();
    let di = match find_last(name, '.') {
        Some(i) => i,
        None => {
            return false;
        },
    };
    if di == 0 {
        return false;
    }
    let ext = name.substring_char(di + 1, name_len);
    eq_lowered(ext, "mp4") || eq_lowered(ext, "webm") || eq_lowered(ext, "mpg") || eq_lowered(
        ext,
        "avi",
    ) || eq_lowered(ext, "mov") || eq_lowered(ext, "m4v") || eq_lowered(ext, "flv") || eq_lowered(
        ext,
        "mkv",
    ) || eq_lowered(ext, "wmv") || eq_lowered(ext, "3gp")
}

} // verus!
