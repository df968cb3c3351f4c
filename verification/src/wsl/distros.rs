//! The distributions that are installed, and the one that is used.
use vstd::prelude::*;

use crate::failure::Failure;
use crate::runtime::plan::{debug_quoted, debug_text};
use crate::text::chars::{
    eq_ignoring_case, lowered, same_ignoring_case, text_eq, to_lower,
};
use crate::text::compose::{has_item, join, joined, no_texts, opt_text, put, texts};
use crate::text::pieces::{lines, lines_of, words, words_of};
use crate::text::search::{
    cut_last, ends_with, has_prefix, has_suffix, rsplit_once, starts_with, strip_prefix,
    without_prefix,
};
use crate::text::trim::{
    left_trimmed, right_trimmed, trim, trim_end_of, trim_start_of, trimmed, CharClass,
};

verus! {

/// The names in a list that holds one to a line.
pub open spec fn names_among(lines: Seq<Seq<char>>) -> Seq<Seq<char>>
    decreases lines.len(),
{
    if lines.len() == 0 {
        Seq::empty()
    } else {
        let before = names_among(lines.drop_last());
        if trimmed(lines.last()).len() == 0 {
            before
        } else {
            before.push(trimmed(lines.last()))
        }
    }
}

/// The names in a list that holds one to a line.
pub fn listed_names(text: &str) -> (r: Vec<String>)
    ensures
        texts(r@) == names_among(lines_of(text@)),
{
    let all = lines(text);
    let ghost seen = texts(all@);
    let mut r = no_texts();
    let mut i: usize = 0;
    assert(names_among(seen.take(0)) =~= Seq::<Seq<char>>::empty());
    while i < all.len()
        invariant
            i <= all@.len(),
            seen == texts(all@),
            texts(r@) == names_among(seen.take(i as int)),
        decreases all@.len() - i,
    {
        assert(seen.take(i as int + 1).drop_last() =~= seen.take(i as int));
        assert(seen.take(i as int + 1).last() == all@[i as int]@);
        let name = trim(all[i].as_str());
        if !text_eq(name.as_str(), "") {
            put(&mut r, name.as_str());
        }
        proof {
            reveal_strlit("");
            assert(name@.len() == 0 ==> name@ =~= ""@);
        }
        i += 1;
    }
    assert(seen.take(i as int) =~= seen);
    r
}

/// A row of the list without the mark of the default.
pub open spec fn row_text(line: Seq<char>) -> Seq<char> {
    trimmed(left_trimmed(trimmed(line), CharClass::Only('*')))
}

/// Whether a row says that a distribution runs under the second version.
pub open spec fn row_of_second(line: Seq<char>, name: Seq<char>) -> bool {
    let cells = words_of(row_text(line));
    cells.len() > 0 && cells.last() == "2"@ && same_ignoring_case(cells[0], name)
}

/// Whether some row says that a distribution runs under the second version.
pub open spec fn runs_as_second(verbose: Seq<char>, name: Seq<char>) -> bool {
    exists|i: int|
        0 <= i < lines_of(verbose).len() && row_of_second(#[trigger] lines_of(verbose)[i], name)
}

/// Whether some row says that a distribution runs under the second version.
pub fn distro_is_wsl2(name: &str, verbose: &str) -> (r: bool)
    ensures
        r == runs_as_second(verbose@, name@),
{
    let all = lines(verbose);
    let mut i: usize = 0;
    while i < all.len()
        invariant
            i <= all@.len(),
            texts(all@) == lines_of(verbose@),
            forall|j: int| 0 <= j < i ==> !row_of_second(#[trigger] texts(all@)[j], name@),
        decreases all@.len() - i,
    {
        let trimmed_line = trim(all[i].as_str());
        let bare = trim_start_of(trimmed_line.as_str(), CharClass::Only('*'));
        let cells = words(trim(bare.as_str()).as_str());
        let ghost row = texts(cells@);
        assert(row == words_of(row_text(texts(all@)[i as int])));
        if cells.len() > 0 {
            let last: usize = cells.len() - 1;
            assert(row.last() == cells@[last as int]@);
            assert(row[0] == cells@[0]@);
            if text_eq(cells[last].as_str(), "2") && eq_ignoring_case(cells[0].as_str(), name) {
                assert(row_of_second(lines_of(verbose@)[i as int], name@));
                return true;
            }
        }
        i += 1;
    }
    false
}

/// The distribution that a row marks as the default, where it runs under the second
/// version.
pub open spec fn default_in_row(line: Seq<char>) -> Option<Seq<char>> {
    match without_prefix(left_trimmed(line, CharClass::White), "*"@) {
        Some(rest) => {
            let cells = words_of(left_trimmed(rest, CharClass::White));
            if cells.len() > 0 && cells.last() == "2"@ {
                Some(cells[0])
            } else {
                None
            }
        },
        None => None,
    }
}

/// The first distribution that a row marks as the default.
pub open spec fn default_among(lines: Seq<Seq<char>>) -> Option<Seq<char>>
    decreases lines.len(),
{
    if lines.len() == 0 {
        None
    } else if default_in_row(lines[0]) is Some {
        default_in_row(lines[0])
    } else {
        default_among(lines.drop_first())
    }
}

fn read_default_row(line: &str) -> (r: Option<String>)
    ensures
        opt_text(r) == default_in_row(line@),
{
    let start = trim_start_of(line, CharClass::White);
    match strip_prefix(start.as_str(), "*") {
        Some(rest) => {
            let cells = words(trim_start_of(rest.as_str(), CharClass::White).as_str());
            let ghost row = texts(cells@);
            if cells.len() == 0 {
                return None;
            }
            let last: usize = cells.len() - 1;
            assert(row.last() == cells@[last as int]@);
            assert(row[0] == cells@[0]@);
            if text_eq(cells[last].as_str(), "2") {
                Some(cells[0].as_str().to_owned())
            } else {
                None
            }
        },
        None => None,
    }
}

/// The distribution that is marked as the default, where it runs under the second
/// version.
pub fn default_distro(verbose: &str) -> (r: Option<String>)
    ensures
        opt_text(r) == default_among(lines_of(verbose@)),
{
    let found = lines(verbose);
    let ghost all = texts(found@);
    let mut i: usize = 0;
    assert(all.skip(0) =~= all);
    while i < found.len()
        invariant
            i <= found@.len(),
            all == texts(found@),
            all == lines_of(verbose@),
            default_among(all) == default_among(all.skip(i as int)),
        decreases found@.len() - i,
    {
        assert(all.skip(i as int).drop_first() =~= all.skip(i as int + 1));
        assert(all.skip(i as int)[0] == found@[i as int]@);
        let here = read_default_row(found[i].as_str());
        if here.is_some() {
            return here;
        }
        i += 1;
    }
    assert(all.skip(i as int) =~= Seq::<Seq<char>>::empty());
    None
}

/// Whether a distribution belongs to another application.
pub open spec fn internal(name: Seq<char>) -> bool {
    let lower = lowered(name);
    lower == "docker-desktop"@ || lower == "docker-desktop-data"@ || ends_with(lower, "-data"@)
}

/// Whether a distribution belongs to another application.
pub fn is_internal_distro(name: &str) -> (r: bool)
    ensures
        r == internal(name@),
{
    let lower = to_lower(name);
    text_eq(lower.as_str(), "docker-desktop") || text_eq(lower.as_str(), "docker-desktop-data")
        || has_suffix(lower.as_str(), "-data")
}

/// Whether a distribution can hold a runtime.
pub open spec fn eligible(name: Seq<char>, verbose: Seq<char>) -> bool {
    !internal(name) && runs_as_second(verbose, name)
}

/// The distributions that can hold a runtime.
pub open spec fn eligible_among(names: Seq<Seq<char>>, verbose: Seq<char>) -> Seq<Seq<char>>
    decreases names.len(),
{
    if names.len() == 0 {
        Seq::empty()
    } else {
        let before = eligible_among(names.drop_last(), verbose);
        if eligible(names.last(), verbose) {
            before.push(names.last())
        } else {
            before
        }
    }
}

/// The distributions that can hold a runtime.
pub fn eligible_distro_names(names: &Vec<String>, verbose: &str) -> (r: Vec<String>)
    ensures
        texts(r@) == eligible_among(texts(names@), verbose@),
{
    let ghost all = texts(names@);
    let mut r = no_texts();
    let mut i: usize = 0;
    assert(eligible_among(all.take(0), verbose@) =~= Seq::<Seq<char>>::empty());
    while i < names.len()
        invariant
            i <= names@.len(),
            all == texts(names@),
            texts(r@) == eligible_among(all.take(i as int), verbose@),
        decreases names@.len() - i,
    {
        assert(all.take(i as int + 1).drop_last() =~= all.take(i as int));
        assert(all.take(i as int + 1).last() == names@[i as int]@);
        if !is_internal_distro(names[i].as_str()) && distro_is_wsl2(names[i].as_str(), verbose) {
            put(&mut r, names[i].as_str());
        }
        i += 1;
    }
    assert(all.take(i as int) =~= all);
    r
}

/// The first of some names that is the given one but for the case of its letters.
pub open spec fn named(names: Seq<Seq<char>>, wanted: Seq<char>) -> Option<Seq<char>>
    decreases names.len(),
{
    if names.len() == 0 {
        None
    } else if same_ignoring_case(names[0], wanted) {
        Some(names[0])
    } else {
        named(names.drop_first(), wanted)
    }
}

fn find_named(names: &Vec<String>, wanted: &str) -> (r: Option<String>)
    ensures
        opt_text(r) == named(texts(names@), wanted@),
{
    let ghost all = texts(names@);
    let mut i: usize = 0;
    assert(all.skip(0) =~= all);
    while i < names.len()
        invariant
            i <= names@.len(),
            all == texts(names@),
            named(all, wanted@) == named(all.skip(i as int), wanted@),
        decreases names@.len() - i,
    {
        assert(all.skip(i as int).drop_first() =~= all.skip(i as int + 1));
        assert(all.skip(i as int)[0] == names@[i as int]@);
        if eq_ignoring_case(names[i].as_str(), wanted) {
            return Some(names[i].as_str().to_owned());
        }
        i += 1;
    }
    assert(all.skip(i as int) =~= Seq::<Seq<char>>::empty());
    None
}

/// The distribution that is asked for, where one is.
pub open spec fn wanted(requested: Option<Seq<char>>) -> Option<Seq<char>> {
    match requested {
        Some(s) => if trimmed(s).len() == 0 {
            None
        } else {
            Some(trimmed(s))
        },
        None => None,
    }
}

/// The distribution that is used, or why there is none.
pub open spec fn chosen_distro(
    requested: Option<Seq<char>>,
    names: Seq<Seq<char>>,
    verbose: Seq<char>,
) -> Result<Seq<char>, Seq<char>> {
    let fit = eligible_among(names, verbose);
    let default = default_among(lines_of(verbose));
    match wanted(requested) {
        Some(name) => if named(names, name) is None {
            Err(
                "WSL distribution "@ + debug_text(name)
                    + " is not installed; available distributions: "@ + joined(names, ", "@),
            )
        } else if internal(name) {
            Err(
                "WSL distribution "@ + debug_text(name)
                    + " is reserved for another application and cannot host OmniInfer"@,
            )
        } else if !runs_as_second(verbose, name) {
            Err("WSL distribution "@ + debug_text(name) + " is not running as WSL2"@)
        } else {
            Ok(named(names, name)->0)
        },
        None => if default is Some && fit.contains(default->0) {
            Ok(default->0)
        } else if fit.len() == 1 {
            Ok(fit[0])
        } else if fit.len() == 0 {
            Err(
                "no user WSL2 distribution is available. Install Ubuntu with `wsl --install -d Ubuntu`, reboot if requested, then rerun the command"@,
            )
        } else {
            Err(
                "multiple WSL2 distributions are available ("@ + joined(fit, ", "@)
                    + "); select one with --wsl-distro"@,
            )
        },
    }
}

fn check_wanted(name: &str, names: &Vec<String>, verbose: &str) -> (r: Result<String, Failure>)
    requires
        trimmed(name@) == name@,
        name@.len() > 0,
    ensures
        crate::failure::text_result(r) == chosen_distro(Some(name@), texts(names@), verbose@),
{
    let found = match find_named(names, name) {
        Some(f) => f,
        None => {
            let message = "WSL distribution ".to_owned().concat(
                debug_quoted(name).as_str(),
            ).concat(" is not installed; available distributions: ").concat(
                join(names, ", ").as_str(),
            );
            return Err(Failure { message });
        },
    };
    if is_internal_distro(name) {
        return Err(
            Failure::of(
                "WSL distribution ",
                debug_quoted(name).as_str(),
                " is reserved for another application and cannot host OmniInfer",
            ),
        );
    }
    if !distro_is_wsl2(name, verbose) {
        return Err(
            Failure::of(
                "WSL distribution ",
                debug_quoted(name).as_str(),
                " is not running as WSL2",
            ),
        );
    }
    Ok(found)
}

/// The distribution that is used: the one that is asked for, or the default, or the only
/// one that can hold a runtime.
pub fn choose_distro(requested: &Option<String>, names: &Vec<String>, verbose: &str) -> (r: Result<
    String,
    Failure,
>)
    ensures
        crate::failure::text_result(r) == chosen_distro(
            opt_text(*requested),
            texts(names@),
            verbose@,
        ),
{
    if let Some(s) = requested {
        let name = trim(s.as_str());
        proof {
            reveal_strlit("");
            assert(name@.len() == 0 ==> name@ =~= ""@);
        }
        if !text_eq(name.as_str(), "") {
            proof {
                crate::text::trim::trimming_is_idempotent(s@, CharClass::White);
            }
            return check_wanted(name.as_str(), names, verbose);
        }
    }
    let fit = eligible_distro_names(names, verbose);
    let ghost all = texts(fit@);
    if let Some(default) = default_distro(verbose) {
        if has_item(&fit, default.as_str()) {
            return Ok(default);
        }
    }
    if fit.len() == 1 {
        assert(all[0] == fit@[0]@);
        return Ok(fit[0].as_str().to_owned());
    }
    if fit.len() == 0 {
        return Err(
            Failure::new(
                "no user WSL2 distribution is available. Install Ubuntu with `wsl --install -d Ubuntu`, reboot if requested, then rerun the command",
            ),
        );
    }
    Err(
        Failure::of(
            "multiple WSL2 distributions are available (",
            join(&fit, ", ").as_str(),
            "); select one with --wsl-distro",
        ),
    )
}

proof fn lemma_eligible(names: Seq<Seq<char>>, verbose: Seq<char>, name: Seq<char>)
    requires
        eligible_among(names, verbose).contains(name),
    ensures
        names.contains(name),
        eligible(name, verbose),
    decreases names.len(),
{
    let all = eligible_among(names, verbose);
    let i = choose|i: int| 0 <= i < all.len() && all[i] == name;
    if names.len() > 0 {
        let before = eligible_among(names.drop_last(), verbose);
        if i < before.len() {
            assert(before[i] == name);
            lemma_eligible(names.drop_last(), verbose, name);
            let j = choose|j: int|
                0 <= j < names.drop_last().len() && names.drop_last()[j] == name;
            assert(names[j] == name);
        } else {
            assert(names[names.len() - 1] == name);
        }
    }
}

proof fn lemma_named(names: Seq<Seq<char>>, wanted: Seq<char>)
    requires
        named(names, wanted) is Some,
    ensures
        names.contains(named(names, wanted)->0),
        same_ignoring_case(named(names, wanted)->0, wanted),
    decreases names.len(),
{
    if names.len() > 0 {
        if same_ignoring_case(names[0], wanted) {
            assert(names[0] == named(names, wanted)->0);
        } else {
            lemma_named(names.drop_first(), wanted);
            let j = choose|j: int|
                0 <= j < names.drop_first().len() && names.drop_first()[j] == named(
                    names,
                    wanted,
                )->0;
            assert(names[j + 1] == named(names, wanted)->0);
        }
    }
}

proof fn lemma_same_name(a: Seq<char>, b: Seq<char>, verbose: Seq<char>)
    requires
        same_ignoring_case(a, b),
    ensures
        internal(a) == internal(b),
        runs_as_second(verbose, b) ==> runs_as_second(verbose, a),
{
    assert(lowered(a) =~= lowered(b));
    if runs_as_second(verbose, b) {
        let i = choose|i: int|
            0 <= i < lines_of(verbose).len() && row_of_second(#[trigger] lines_of(verbose)[i], b);
        let cell = words_of(row_text(lines_of(verbose)[i]))[0];
        assert(lowered(cell) =~= lowered(b));
        assert(row_of_second(lines_of(verbose)[i], a));
    }
}

/// The distribution that is used is installed, runs under the second version and does not
/// belong to another application.
pub proof fn the_chosen_distro_is_fit(
    requested: Option<Seq<char>>,
    names: Seq<Seq<char>>,
    verbose: Seq<char>,
)
    ensures
        chosen_distro(requested, names, verbose) matches Ok(name) ==> names.contains(name)
            && eligible(name, verbose),
{
    if let Ok(name) = chosen_distro(requested, names, verbose) {
        match wanted(requested) {
            Some(w) => {
                lemma_named(names, w);
                lemma_same_name(name, w, verbose);
            },
            None => {
                let fit = eligible_among(names, verbose);
                let default = default_among(lines_of(verbose));
                if !(default is Some && fit.contains(default->0)) {
                    assert(fit[0] == name);
                }
                lemma_eligible(names, verbose, name);
            },
        }
    }
}

/// The directory under which Windows drives appear, from where the first of them does.
pub open spec fn mount_root(c_root: Seq<char>) -> Option<Seq<char>> {
    match cut_last(right_trimmed(trimmed(c_root), CharClass::Only('/')), '/') {
        Some((root, drive)) => if !same_ignoring_case(drive, "c"@) {
            None
        } else if root.len() == 0 {
            Some("/"@)
        } else if starts_with(root, "/"@) {
            Some(root)
        } else {
            None
        },
        None => None,
    }
}

/// The directory under which Windows drives appear, from where the first of them does.
pub fn automount_root_from_c_path(c_root: &str) -> (r: Option<String>)
    ensures
        opt_text(r) == mount_root(c_root@),
{
    let bare = trim_end_of(trim(c_root).as_str(), CharClass::Only('/'));
    match rsplit_once(bare.as_str(), '/') {
        Some((root, drive)) => {
            proof {
                reveal_strlit("");
                assert(root@.len() == 0 ==> root@ =~= ""@);
            }
            if !eq_ignoring_case(drive.as_str(), "c") {
                None
            } else if text_eq(root.as_str(), "") {
                Some("/".to_owned())
            } else if has_prefix(root.as_str(), "/") {
                Some(root)
            } else {
                None
            }
        },
        None => None,
    }
}

/// The directory under which drives appear is an absolute one.
pub proof fn mount_roots_are_absolute(c_root: Seq<char>)
    ensures
        mount_root(c_root) matches Some(root) ==> root.len() > 0 && root[0] == '/',
{
    reveal_strlit("/");
    if let Some(root) = mount_root(c_root) {
        if starts_with(root, "/"@) {
            assert(root.take(1)[0] == "/"@[0]);
        }
    }
}

} // verus!
