//! Paths as texts. What a separator is depends on the machine, so the functions that
//! take a path apart are std's own.
use vstd::prelude::*;

use crate::text::chars::{eq_ignoring_case, same_ignoring_case};
use crate::text::compose::opt_text;
use crate::text::pieces::pieces;
use crate::text::search::{contains, ends_with, last_of, starts_with};

verus! {

/// A path that is one file name on every machine.
pub open spec fn plain_name(s: Seq<char>) -> bool {
    &&& !s.contains('/')
    &&& !s.contains('\\')
    &&& !s.contains(':')
    &&& s != seq!['.']
    &&& s != seq!['.', '.']
}

/// A path that is relative on every machine.
pub open spec fn surely_relative(s: Seq<char>) -> bool {
    &&& !s.contains(':')
    &&& s.len() > 0 ==> s[0] != '/' && s[0] != '\\'
}

/// A Windows path of the kind that is taken literally, such as `\\?\C:\models`.
pub open spec fn verbatim(s: Seq<char>) -> bool {
    starts_with(s, seq!['\\', '\\', '?', '\\'])
}

/// A character that separates the parts of a path on some machine.
pub open spec fn separator(c: char) -> bool {
    c == '/' || c == '\\'
}

/// A path that starts with two separators, and so may name a server on Windows.
pub open spec fn twin_start(s: Seq<char>) -> bool {
    s.len() >= 2 && separator(s[0]) && separator(s[1])
}

/// A path that does not start with two separators is not taken literally.
pub proof fn lemma_not_verbatim(s: Seq<char>)
    ensures
        !twin_start(s) ==> !verbatim(s),
{
    if verbatim(s) {
        let start = s.subrange(0, 4);
        assert(start[0] == '\\' && start[1] == '\\');
        assert(s[0] == start[0] && s[1] == start[1]);
    }
}

/// A path whose parts are the same on every machine: those between its slashes.
pub open spec fn slashed(s: Seq<char>) -> bool {
    &&& !s.contains('\\')
    &&& !s.contains(':')
    &&& !twin_start(s)
}

/// Whether a path leads to the file `name` behind a slash, on every machine.
pub open spec fn filed(path: Seq<char>, dir: Seq<char>, name: Seq<char>) -> bool {
    &&& path == dir + seq!['/'] + name
    &&& name.len() > 0
    &&& plain_name(name)
    &&& !twin_start(path)
}

/// Whether a path ends in a backslash and a file name with an extension. What stands
/// before the last dot differs between machines then, and what stands behind it does not.
pub open spec fn backfiled(path: Seq<char>, dir: Seq<char>, name: Seq<char>) -> bool {
    &&& path == dir + seq!['\\'] + name
    &&& plain_name(name)
    &&& last_of(name, '.') > 0
    &&& !twin_start(path)
}

/// Whether a directory is written as a path's beginning is left by std: it ends in no
/// separator, in no dot that is passed over, and in no drive.
pub open spec fn tidy_dir(dir: Seq<char>) -> bool {
    dir.len() > 0 && !separator(dir.last()) && dir.last() != ':' && dir.last() != '.'
}

/// Whether `r` is `base` with `name` behind it. There is a separator between them, unless
/// `base` is empty or ends in one. After a final backslash a slash comes on machines where
/// a backslash separates nothing, and after a final colon nothing may come, as behind a
/// drive.
pub open spec fn extended(base: Seq<char>, name: Seq<char>, r: Seq<char>) -> bool {
    if base.len() == 0 || base.last() == '/' {
        r == base + name
    } else if base.last() == '\\' {
        r == base + name || r == base + seq!['/'] + name
    } else {
        ||| r == base + seq!['/'] + name
        ||| r == base + seq!['\\'] + name
        ||| base.last() == ':' && r == base + name
    }
}

/// Whether `parent` can be what is left of a path without its last part.
pub open spec fn parent_of(path: Seq<char>, parent: Option<Seq<char>>) -> bool {
    &&& path.len() == 0 ==> parent is None
    &&& path.len() > 0 && plain_name(path) ==> parent == Some(Seq::<char>::empty())
    &&& match parent {
        Some(p) => starts_with(path, p) && p.len() < path.len(),
        None => true,
    }
    &&& forall|dir: Seq<char>, name: Seq<char>| #[trigger]
        filed(path, dir, name) ==> (dir.len() == 0 ==> parent == Some(seq!['/'])) && (tidy_dir(dir)
            ==> parent == Some(dir))
    &&& forall|dir: Seq<char>, name: Seq<char>| #[trigger]
        backfiled(path, dir, name) && tidy_dir(dir) && !dir.contains('/') ==> parent == Some(dir)
            || parent == Some(Seq::<char>::empty())
}

/// Whether `r` can be the path `name` as seen from `base`. A path that starts with a slash
/// keeps at most the drive or the server of `base`.
pub open spec fn joined_path(base: Seq<char>, name: Seq<char>, r: Seq<char>) -> bool {
    !verbatim(base) ==> {
        &&& ends_with(r, name)
        &&& surely_relative(name) ==> extended(base, name, r)
        &&& name.len() > 0 && name[0] == '/' ==> exists|k: int|
            0 <= k <= base.len() && r == #[trigger] base.take(k) + name
        &&& name.len() > 0 && name[0] == '/' && !base.contains(':') && !twin_start(base) ==> r
            == name
    }
}

/// The last of the parts of a path that names something, unless that is the directory
/// above.
pub open spec fn last_name(parts: Seq<Seq<char>>) -> Option<Seq<char>>
    decreases parts.len(),
{
    if parts.len() == 0 {
        None
    } else if parts.last() == ""@ || parts.last() == "."@ {
        last_name(parts.drop_last())
    } else if parts.last() == ".."@ {
        None
    } else {
        Some(parts.last())
    }
}

/// Whether `name` can be that of the file a path leads to.
pub open spec fn file_name_of(path: Seq<char>, name: Option<Seq<char>>) -> bool {
    &&& slashed(path) ==> name == last_name(pieces(path, '/'))
    &&& forall|dir: Seq<char>, n: Seq<char>| #[trigger] filed(path, dir, n) ==> name == Some(n)
    &&& match name {
        Some(n) => contains(path, n) && n.len() > 0,
        None => true,
    }
}

/// The part of a file name behind its last dot, unless that dot comes first.
pub open spec fn dotted_extension(name: Seq<char>) -> Option<Seq<char>> {
    if last_of(name, '.') > 0 {
        Some(name.skip(last_of(name, '.') + 1))
    } else {
        None
    }
}

/// Whether `extension` can be that of the file a path leads to.
pub open spec fn extension_of(path: Seq<char>, extension: Option<Seq<char>>) -> bool {
    &&& plain_name(path) ==> extension == dotted_extension(path)
    &&& forall|dir: Seq<char>, name: Seq<char>| #[trigger]
        filed(path, dir, name) ==> extension == dotted_extension(name)
    &&& forall|dir: Seq<char>, name: Seq<char>| #[trigger]
        backfiled(path, dir, name) ==> extension == dotted_extension(name)
    &&& match extension {
        Some(e) => contains(path, seq!['.'] + e) && !e.contains('.'),
        None => true,
    }
}

/// `Path::parent`: the path without its final component, or nothing where the path is
/// empty or ends in a root. What is left is a shorter beginning of the path: nothing for
/// a single file name, the root for a file in it, and for a file behind a directory and a
/// slash the directory as it is written. Behind a backslash it is the directory, or
/// nothing on machines where a backslash separates nothing. Where the directory ends in a
/// separator, a dot or a colon, or the path in a separator, the place of the cut is left
/// open.
#[verifier::external_body]
pub(crate) fn path_parent(path: &str) -> (r: Option<String>)
    ensures
        parent_of(path@, opt_text(r)),
{
    std::path::Path::new(path).parent().map(|parent| parent.display().to_string())
}

/// `Path::join`: the first path extended by the second, with a separator between them
/// where the first ends in none. A second path with a root keeps nothing of the first but
/// its drive or server, if that. A first path of the kind that Windows takes literally is
/// normalised; of that nothing is said, nor of which of the separators is put in.
#[verifier::external_body]
pub(crate) fn path_join(base: &str, name: &str) -> (r: String)
    ensures
        joined_path(base@, name@, r@),
{
    std::path::Path::new(base).join(name).display().to_string()
}

/// `Path::extension`: the part of the file name behind its last dot; nothing where there
/// is no dot, or where the only one comes first. That holds of a bare file name, of one
/// behind a slash, and of one with an extension behind a backslash, where the path does
/// not start with two separators. Of other paths it is said that the extension stands
/// behind a dot in the path.
#[verifier::external_body]
pub(crate) fn path_extension(path: &str) -> (r: Option<String>)
    ensures
        extension_of(path@, opt_text(r)),
{
    std::path::Path::new(path).extension().and_then(|e| e.to_str()).map(|e| e.to_string())
}

/// `Path::file_name`: the last part of the path, unless it is a root, a drive or the
/// directory above; empty parts and those that mean the directory itself are passed over
/// at the end. For a path with slashes alone its parts are those between them. Which parts
/// a path with backslashes or colons has depends on the machine; where one ends in a slash
/// and a file name, that is the name.
#[verifier::external_body]
pub(crate) fn path_file_name(path: &str) -> (r: Option<String>)
    ensures
        file_name_of(path@, opt_text(r)),
{
    std::path::Path::new(path).file_name().and_then(|n| n.to_str()).map(|n| n.to_string())
}

/// `Path::is_absolute`: on Unix whether the path starts with a slash, on Windows whether
/// it has a prefix and a root. What is absolute on some machine is stated from the one
/// side only.
#[verifier::external_body]
pub(crate) fn path_is_absolute(path: &str) -> (r: bool)
    ensures
        r ==> !surely_relative(path@),
        path@.len() == 0 ==> !r,
{
    std::path::Path::new(path).is_absolute()
}

/// Whether an extension is that of a checkpoint that vla.cpp can load.
pub open spec fn vla_extension(extension: Option<Seq<char>>) -> bool {
    match extension {
        Some(e) => same_ignoring_case(e, "gguf"@) || same_ignoring_case(e, "safetensors"@),
        None => false,
    }
}

/// Whether an extension is that of a checkpoint that vla.cpp can load.
pub fn is_vla_extension(extension: &Option<String>) -> (r: bool)
    ensures
        r == vla_extension(opt_text(*extension)),
{
    match extension {
        Some(e) => eq_ignoring_case(e.as_str(), "gguf") || eq_ignoring_case(
            e.as_str(),
            "safetensors",
        ),
        None => false,
    }
}

/// Whether a path is that of a checkpoint that vla.cpp can load.
pub fn is_vla_checkpoint_path(path: &str) -> (r: bool)
    ensures
        exists|e: Option<Seq<char>>|
            #[trigger] extension_of(path@, e) && r == vla_extension(e),
        plain_name(path@) ==> r == vla_extension(dotted_extension(path@)),
        forall|dir: Seq<char>, name: Seq<char>| #[trigger]
            filed(path@, dir, name) ==> r == vla_extension(dotted_extension(name)),
        forall|dir: Seq<char>, name: Seq<char>| #[trigger]
            backfiled(path@, dir, name) ==> r == vla_extension(dotted_extension(name)),
{
    let extension = path_extension(path);
    assert(extension_of(path@, opt_text(extension)));
    is_vla_extension(&extension)
}

} // verus!
