//! Output path resolution: deriving where a converted file is written.
//!
//! The output lands in an `outputs` subdirectory of the input's parent
//! directory, named `{input_stem}_timelapse.mp4` whatever the input's
//! container was.  Paths are plain `/`-separated strings here; making
//! the directory exist is the caller's side of the work.

use vstd::prelude::*;
use crate::formats::file_name_of;
use crate::text::{find_last, last_idx};

verus! {

/// The stem of a path's file name: the part before the last `.`, or the
/// whole file name when it holds no `.`, or only a leading one.
pub open spec fn stem_of(path: Seq<char>) -> Seq<char> {
    let name = file_name_of(path);
    let di = last_idx(name, '.');
    if di <= 0 {
        name
    } else {
        name.subrange(0, di)
    }
}

/// The parent directory of a path, as a plain string: everything before
/// the last `/`, the root `/` for a top-level entry, and the empty string
/// for a bare file name.
pub open spec fn parent_of(path: Seq<char>) -> Seq<char> {
    let pi = last_idx(path, '/');
    if pi == -1 {
        Seq::<char>::empty()
    } else if pi == 0 {
        "/"@
    } else {
        path.subrange(0, pi)
    }
}

/// Joining a directory and an entry name: a `/` goes between them unless
/// the directory is empty or already ends in one.
pub open spec fn spec_join(dir: Seq<char>, name: Seq<char>) -> Seq<char> {
    if dir.len() == 0 {
        name
    } else if dir.last() == '/' {
        dir + name
    } else {
        dir + "/"@ + name
    }
}

/// The directory a converted file is written to: the `outputs`
/// subdirectory of the input's parent.
pub open spec fn spec_output_dir(path: Seq<char>) -> Seq<char> {
    spec_join(parent_of(path), "outputs"@)
}

/// The stem the output file is named after: the input's stem, or
/// `output` when the input has none.
pub open spec fn output_stem_of(path: Seq<char>) -> Seq<char> {
    if stem_of(path).len() == 0 {
        "output"@
    } else {
        stem_of(path)
    }
}

/// The full path a converted file is written to:
/// `{output dir}/{stem}_timelapse.mp4`.
pub open spec fn spec_output_path(path: Seq<char>) -> Seq<char> {
    spec_join(spec_output_dir(path), output_stem_of(path) + "_timelapse.mp4"@)
}

/// Extracts the file-name part of `path`, with `Unknown` standing in for
/// an empty one.
pub fn file_name_or_unknown(path: &str) -> (r: String)
    ensures
        r@ == (if file_name_of(path@).len() == 0 {
            "Unknown"@
        } else {
            file_name_of(path@)
        }),
{
    let n = path.unicode_len();
    let start: usize = match find_last(path, '/') {
        Some(i) => i + 1,
        None => 0,
    };
    let name = path.substring_char(start, n);
    proof {
        assert(name@ =~= file_name_of(path@));
    }
    if name.unicode_len() == 0 {
        String::from_str("Unknown")
    } else {
        String::from_str(name)
    }
}

/// Computes the directory a converted file is written to, as
/// `spec_output_dir` derives it.
pub fn output_dir_path(input_path: &str) -> (r: String)
    ensures
        r@ == spec_output_dir(input_path@),
{
    let n = input_path.unicode_len();
    let parent: &str = match find_last(input_path, '/') {
        Some(i) => {
            if i == 0 {
                "/"
            } else {
                input_path.substring_char(0, i)
            }
        },
        None => "",
    };
    proof {
        reveal_strlit("/");
        reveal_strlit("");
        assert(parent@ =~= parent_of(input_path@));
    }
    let joined = join_path(parent, "outputs");
    joined
}

/// Joins a directory and an entry name as `spec_join` does.
fn join_path(dir: &str, name: &str) -> (r: String)
    ensures
        r@ == spec_join(dir@, name@),
{
    let n = dir.unicode_len();
    if n == 0 {
        String::from_str(name)
    } else if dir.get_char(n - 1) == '/' {
        String::from_str(dir).concat(name)
    } else {
        let mut r = String::from_str(dir);
        r.append("/");
        r.append(name);
        proof {
            assert(r@ =~= dir@ + "/"@ + name@);
        }
        r
    }
}

/// Computes the full output path of a converted input, as
/// `spec_output_path` derives it: `{parent}/outputs/{stem}_timelapse.mp4`.
pub fn get_output_path(input_path: &str) -> (r: String)
    ensures
        r@ == spec_output_path(input_path@),
{
    let n = input_path.unicode_len();
    let start: usize = match find_last(input_path, '/') {
        Some(i) => i + 1,
        None => 0,
    };
    let name = input_path.substring_char(start, n);
    proof {
        assert(name@ =~= file_name_of(input_path@));
    }
    let name_len = name.unicode_len();
    let stem: &str = match find_last(name, '.') {
        Some(di) => {
            if di == 0 {
                name
            } else {
                name.substring_char(0, di)
            }
        },
        None => name,
    };
    proof {
        assert(stem@ =~= stem_of(input_path@));
    }
    let stem2: &str = if stem.unicode_len() == 0 {
        "output"
    } else {
        stem
    };
    proof {
        reveal_strlit("output");
        assert(stem2@ =~= output_stem_of(input_path@));
    }
    let mut fname = String::from_str(stem2);
    fname.append("_timelapse.mp4");
    let dir = output_dir_path(input_path);
    let r = join_path(dir.as_str(), fname.as_str());
    r
}

/// The message reported when the output directory cannot be created;
/// `err` is the file system's error text.
pub fn dir_create_failed_message(dir: &str, err: &str) -> (r: String)
    ensures
        r@ == "Failed to create output directory '"@ + dir@ + "': "@ + err@,
{
    let mut r = String::from_str("Failed to create output directory '");
    r.append(dir);
    r.append("': ");
    r.append(err);
    proof {
        assert(r@ =~= "Failed to create output directory '"@ + dir@ + "': "@ + err@);
    }
    r
}

/// How the output path is put together: it is the output directory —
/// itself ending in an `outputs` segment — then a `/`, then the output
/// stem, then the fixed `_timelapse.mp4` suffix.
pub proof fn lemma_output_path_shape(path: Seq<char>)
    ensures
        spec_output_path(path) == spec_output_dir(path) + "/"@ + output_stem_of(path)
            + "_timelapse.mp4"@,
        spec_output_dir(path).subrange(
            spec_output_dir(path).len() - 7,
            spec_output_dir(path).len() as int,
        ) == "outputs"@,
        spec_output_dir(path).len() >= 7,
{
    reveal_strlit("outputs");
    reveal_strlit("/");
    let dir = spec_output_dir(path);
    let parent = parent_of(path);
    if parent.len() == 0 {
        assert(dir =~= "outputs"@);
        assert(dir.subrange(dir.len() - 7, dir.len() as int) =~= "outputs"@);
    } else if parent.last() == '/' {
        assert(dir =~= parent + "outputs"@);
        assert(dir.subrange(dir.len() - 7, dir.len() as int) =~= "outputs"@);
    } else {
        assert(dir =~= parent + "/"@ + "outputs"@);
        assert(dir.subrange(dir.len() - 7, dir.len() as int) =~= "outputs"@);
    }
    assert(dir.last() == 's');
    assert(dir.last() != '/');
    assert(spec_output_path(path) =~= dir + "/"@ + output_stem_of(path) + "_timelapse.mp4"@);
}

} // verus!
