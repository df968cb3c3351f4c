//! How the answers of a machine are read.
use vstd::prelude::*;

use crate::json::{lemma_field_at, member, JsonView};
use crate::manager::laws::opt_value;
use crate::text::chars::{lowered, white};
use crate::text::pieces::{lines_of, words_of};
use crate::text::search::starts_with;
use crate::text::trim::{left_trimmed, right_trimmed, trimmed, CharClass};
use crate::wsl::catalog::{RocmPackageAsset, RocmSystemRuntime};
use crate::wsl::checks::probe_report;
use crate::wsl::commands::{
    as_root, as_user, full_arguments, started_report, CommandView, InputView,
};
use crate::wsl::distros::{default_among, mount_root, named, names_among, row_of_second};
use crate::wsl::output::{decoded, CommandOutput};
use crate::wsl::packages::{
    all_trimmed_lines, need_of, pending, requirements, system_state, version_lines,
};

verus! {

/// The drives appear under the directory above that of the first drive.
pub proof fn drives_appear_above_the_first(root: Seq<char>, c: char)
    requires
        c == 'c' || c == 'C',
        root.len() > 0 ==> root[0] == '/',
        root.len() > 0 ==> !white(root[0]),
    ensures
        ({
            let path = root + seq!['/', c];
            &&& trimmed(path) == path && root.len() > 0 ==> mount_root(path) == Some(root)
            &&& trimmed(path) == path && root.len() == 0 ==> mount_root(path) == Some("/"@)
        }),
{
    let path = root + seq!['/', c];
    reveal_strlit("c");
    reveal_strlit("/");
    assert(path.last() == c);
    assert(right_trimmed(path, CharClass::Only('/')) == path);
    let drive = seq![c];
    assert(!drive.contains('/'));
    crate::text::laws::texts_are_cut_at_their_separator(root, '/', drive);
    assert(root + seq!['/'] + drive =~= path);
    assert(lowered(drive) =~= lowered("c"@));
    if root.len() > 0 {
        assert(root.subrange(0, 1) =~= "/"@);
    }
}

/// The directory of the drives is an absolute one.
pub proof fn drives_appear_in_an_absolute_directory(path: Seq<char>)
    ensures
        mount_root(path) matches Some(root) ==> root.len() > 0 && root[0] == '/',
{
    reveal_strlit("/");
    if let Some(root) = mount_root(path) {
        assert("/"@[0] == '/');
        if root != "/"@ {
            assert(root.subrange(0, 1)[0] == "/"@[0]);
        }
    }
}

/// A row says of a distribution that it runs under the second version where its first word is
/// the name, whatever the case, and its last word is a two; a mark before it does not count.
pub proof fn rows_say_which_version_runs(line: Seq<char>, name: Seq<char>, words: Seq<Seq<char>>)
    requires
        words_of(trimmed(left_trimmed(trimmed(line), CharClass::Only('*')))) == words,
    ensures
        row_of_second(line, name) <==> words.len() > 0 && words.last() == "2"@ && lowered(words[0])
            == lowered(name),
{
}

/// The default distribution is the first one that is marked by a star and runs under the
/// second version.
pub proof fn the_marked_distribution_is_the_default(
    lines: Seq<Seq<char>>,
    line: Seq<char>,
    rest: Seq<char>,
    words: Seq<Seq<char>>,
)
    requires
        left_trimmed(line, CharClass::White) == seq!['*'] + rest,
        words_of(left_trimmed(rest, CharClass::White)) == words,
        words.len() > 0,
    ensures
        words.last() == "2"@ ==> default_among(seq![line] + lines) == Some(words[0]),
        words.last() != "2"@ ==> default_among(seq![line] + lines) == default_among(lines),
{
    reveal_strlit("*");
    let t = seq!['*'] + rest;
    assert(t.subrange(0, 1) =~= "*"@);
    assert(t.skip(1) =~= rest);
    let all = seq![line] + lines;
    assert(all[0] == line);
    assert(all.drop_first() =~= lines);
}

/// The names of distributions are the lines that say something, without the space round them.
pub proof fn names_are_the_lines_that_say_something(lines: Seq<Seq<char>>, line: Seq<char>)
    ensures
        trimmed(line).len() > 0 ==> names_among(lines.push(line)) == names_among(lines).push(
            trimmed(line),
        ),
        trimmed(line).len() == 0 ==> names_among(lines.push(line)) == names_among(lines),
        names_among(Seq::empty()).len() == 0,
{
    assert(lines.push(line).drop_last() =~= lines);
}

/// The name of a distribution is found whatever its case, and as it is listed.
pub proof fn names_are_found_whatever_their_case(
    names: Seq<Seq<char>>,
    wanted: Seq<char>,
    i: int,
)
    requires
        0 <= i < names.len(),
        lowered(names[i]) == lowered(wanted),
        forall|j: int| 0 <= j < i ==> lowered(#[trigger] names[j]) != lowered(wanted),
    ensures
        named(names, wanted) == Some(names[i]),
    decreases i,
{
    if i > 0 {
        assert(lowered(names[0]) != lowered(wanted));
        let rest = names.drop_first();
        assert forall|j: int| 0 <= j < i - 1 implies lowered(#[trigger] rest[j]) != lowered(
            wanted,
        ) by {
            assert(rest[j] == names[j + 1]);
        }
        names_are_found_whatever_their_case(rest, wanted, i - 1);
    }
}

/// Downloaded are just the packages that are neither installed in their version nor in the
/// cache.
pub proof fn missing_packages_are_pending(
    assets: Seq<RocmPackageAsset>,
    stated: Seq<Seq<char>>,
    cached: Seq<bool>,
    i: int,
)
    ensures
        pending(assets, stated, cached).contains(i) <==> 0 <= i < assets.len() && need_of(
            assets[i],
            stated,
            cached[i],
        ) is Download,
    decreases assets.len(),
{
    let all = pending(assets, stated, cached);
    if assets.len() > 0 {
        let rest = assets.drop_last();
        let less = pending(rest, stated, cached);
        let n = assets.len() - 1;
        missing_packages_are_pending(rest, stated, cached, i);
        if 0 <= i < rest.len() {
            assert(rest[i] == assets[i]);
        }
        if all.contains(i) {
            let k = choose|k: int| 0 <= k < all.len() && all[k] == i;
            if k < less.len() {
                assert(less[k] == i);
            }
        }
        if less.contains(i) {
            let k = choose|k: int| 0 <= k < less.len() && less[k] == i;
            assert(all[k] == i);
        }
        if i == n && need_of(assets[n], stated, cached[n]) is Download {
            assert(all[all.len() - 1] == i);
        }
    }
}

/// A system fits where the query succeeds and a line states each requirement.
pub proof fn systems_fit_where_everything_is_stated(output: CommandOutput, system: RocmSystemRuntime)
    ensures
        system_state(output, system) is Ok <==> (output.success && forall|i: int|
            0 <= i < requirements(system).len() ==> all_trimmed_lines(
                decoded(output.stdout@),
            ).contains(#[trigger] requirements(system)[i])),
{
    lemma_missing(requirements(system), all_trimmed_lines(decoded(output.stdout@)));
}

proof fn lemma_missing(wanted: Seq<Seq<char>>, stated: Seq<Seq<char>>)
    ensures
        crate::wsl::packages::first_missing(wanted, stated) is None <==> forall|i: int|
            0 <= i < wanted.len() ==> stated.contains(#[trigger] wanted[i]),
    decreases wanted.len(),
{
    if wanted.len() > 0 {
        let rest = wanted.drop_first();
        lemma_missing(rest, stated);
        if crate::wsl::packages::first_missing(wanted, stated) is None {
            assert forall|i: int| 0 <= i < wanted.len() implies stated.contains(
                #[trigger] wanted[i],
            ) by {
                if i > 0 {
                    assert(rest[i - 1] == wanted[i]);
                }
            }
        }
        if forall|i: int| 0 <= i < wanted.len() ==> stated.contains(#[trigger] wanted[i]) {
            assert(stated.contains(wanted[0]));
            assert forall|i: int| 0 <= i < rest.len() implies stated.contains(
                #[trigger] rest[i],
            ) by {
                assert(rest[i] == wanted[i + 1]);
            }
        }
    }
}

/// That some packages are not installed is no failure of the query, and any other code is.
pub proof fn queries_may_miss_packages(output: CommandOutput)
    ensures
        version_lines(output) is Ok <==> output.success || output.code == Some(1i32),
        version_lines(output) is Ok ==> version_lines(output) == Ok::<Seq<Seq<char>>, Seq<char>>(
            lines_of(decoded(output.stdout@)),
        ),
{
}

/// The report of a probe is the last line that begins like an object.
pub proof fn probes_report_in_the_last_object(output: CommandOutput)
    ensures
        !output.success ==> probe_report(output) is Err,
        output.success && lines_of(decoded(output.stdout@)).len() > 0 && starts_with(
            left_trimmed(lines_of(decoded(output.stdout@)).last(), CharClass::White),
            "{"@,
        ) ==> probe_report(output) == Ok::<Seq<char>, Seq<char>>(
            lines_of(decoded(output.stdout@)).last(),
        ),
        output.success && lines_of(decoded(output.stdout@)).len() == 0 ==> probe_report(output)
            is Err,
{
}

/// A command is reported with what it does, where it runs, its program and its user.
pub proof fn commands_are_reported_when_they_start(c: CommandView, distribution: Seq<char>)
    ensures
        member(started_report(c, distribution), "action"@) == Some(JsonView::Text(c.action)),
        member(started_report(c, distribution), "distribution"@) == Some(
            JsonView::Text(distribution),
        ),
        c.args.len() > 0 ==> member(started_report(c, distribution), "command"@) == Some(
            JsonView::Text(c.args[0]),
        ),
        c.args.len() == 0 ==> member(started_report(c, distribution), "command"@) == Some(
            JsonView::Null,
        ),
        member(started_report(c, distribution), "user"@) == Some(opt_value(c.user)),
{
    let fields = started_report(c, distribution)->Object_0;
    reveal_strlit("action");
    reveal_strlit("distribution");
    reveal_strlit("command");
    reveal_strlit("user");
    assert("action"@.len() == 6);
    assert("distribution"@.len() == 12);
    assert("command"@.len() == 7);
    assert("user"@.len() == 4);
    lemma_field_at(fields, 0);
    lemma_field_at(fields, 1);
    lemma_field_at(fields, 2);
    lemma_field_at(fields, 3);
}

/// A command of the user names no user and reads nothing; one of the administrator names that
/// user and reads its input; both have their own words, which stand behind the distribution
/// and the user.
pub proof fn commands_are_run_as_they_stand(
    distribution: Seq<char>,
    args: Seq<Seq<char>>,
    input: InputView,
    action: Seq<char>,
)
    ensures
        as_user(args, action).user is None && as_user(args, action).args == args && as_user(
            args,
            action,
        ).input is Nothing && as_user(args, action).action == action,
        as_root(args, input, action).user == Some("root"@) && as_root(args, input, action).args
            == args && as_root(args, input, action).input == input && as_root(
            args,
            input,
            action,
        ).action == action,
        full_arguments(distribution, None, args) == seq!["--distribution"@, distribution, "--exec"@]
            + args,
        full_arguments(distribution, Some("root"@), args) == seq![
            "--distribution"@,
            distribution,
            "--user"@,
            "root"@,
            "--exec"@,
        ] + args,
{
    assert(full_arguments(distribution, None, args) =~= seq![
        "--distribution"@,
        distribution,
        "--exec"@,
    ] + args);
}

} // verus!
