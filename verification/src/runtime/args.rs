//! The arguments that a runtime is launched with.
use vstd::prelude::*;

use crate::text::chars::text_eq;
use crate::text::compose::{copy_texts, has_item, no_texts, opt_text, put, put_all, texts};
use crate::text::search::{before_first, has_prefix, head_before, starts_with};

verus! {

/// The flag that an argument sets: what stands before its equals sign.
pub open spec fn flag_of(arg: Seq<char>) -> Seq<char> {
    before_first(arg, '=')
}

/// The flags that the gateway sets itself.
pub open spec fn managed_flag(flag: Seq<char>) -> bool {
    ||| flag == "-m"@
    ||| flag == "--model"@
    ||| flag == "-mm"@
    ||| flag == "--mmproj"@
    ||| flag == "--host"@
    ||| flag == "--port"@
    ||| flag == "--no-webui"@
}

/// The first managed flag that the arguments set.
pub open spec fn first_managed(args: Seq<Seq<char>>) -> Option<Seq<char>>
    decreases args.len(),
{
    if args.len() == 0 {
        None
    } else if managed_flag(flag_of(args[0])) {
        Some(flag_of(args[0]))
    } else {
        first_managed(args.drop_first())
    }
}

/// The arguments without the given flags and the value behind each of them.
pub open spec fn without_flags(args: Seq<Seq<char>>, flags: Seq<Seq<char>>) -> Seq<Seq<char>>
    decreases args.len(),
{
    if args.len() == 0 {
        seq![]
    } else if flags.contains(args[0]) {
        if args.len() == 1 {
            seq![]
        } else {
            without_flags(args.skip(2), flags)
        }
    } else {
        seq![args[0]] + without_flags(args.drop_first(), flags)
    }
}

/// The value behind the last of the given flags that has one.
pub open spec fn last_value(args: Seq<Seq<char>>, flags: Seq<Seq<char>>) -> Option<Seq<char>>
    decreases args.len(),
{
    if args.len() == 0 {
        None
    } else if flags.contains(args[0]) {
        if args.len() == 1 {
            None
        } else {
            match last_value(args.skip(2), flags) {
                Some(value) => Some(value),
                None => Some(args[1]),
            }
        }
    } else {
        last_value(args.drop_first(), flags)
    }
}

/// The arguments with every one of the flags taken out and the first of them set.
pub open spec fn with_flag(
    args: Seq<Seq<char>>,
    flags: Seq<Seq<char>>,
    value: Seq<char>,
) -> Seq<Seq<char>> {
    without_flags(args, flags).push(flags[0]).push(value)
}

/// Whether an argument sets the context size of a runtime of the given family.
pub open spec fn sets_ctx_size(family: Seq<char>, arg: Seq<char>) -> bool {
    let flag = flag_of(arg);
    if family == "vllm"@ {
        flag == "--max-model-len"@
    } else if family == "llama.cpp"@ || family == "turboquant"@ {
        flag == "-c"@ || flag == "--ctx-size"@
    } else {
        flag == "-c"@ || flag == "--ctx-size"@ || flag == "--max-model-len"@
    }
}

/// The launch arguments that apply: the defaults where none are requested, both where
/// the backend is an official llama.cpp one, and the requested ones alone elsewhere.
pub open spec fn merged(
    backend_id: Seq<char>,
    family: Seq<char>,
    defaults: Seq<Seq<char>>,
    requested: Option<Seq<Seq<char>>>,
) -> Seq<Seq<char>> {
    match requested {
        None => defaults,
        Some(args) => if family == "llama.cpp"@ && starts_with(backend_id, "llama.cpp-"@) {
            defaults + args
        } else {
            args
        },
    }
}

fn is_managed_flag(flag: &str) -> (r: bool)
    ensures
        r == managed_flag(flag@),
{
    text_eq(flag, "-m") || text_eq(flag, "--model") || text_eq(flag, "-mm") || text_eq(
        flag,
        "--mmproj",
    ) || text_eq(flag, "--host") || text_eq(flag, "--port") || text_eq(flag, "--no-webui")
}

/// The first managed flag that the arguments set.
pub fn find_managed(args: &Vec<String>) -> (r: Option<String>)
    ensures
        opt_text(r) == first_managed(texts(args@)),
{
    let ghost all = texts(args@);
    let mut i: usize = 0;
    assert(all.skip(0) =~= all);
    while i < args.len()
        invariant
            i <= args@.len(),
            all == texts(args@),
            first_managed(all) == first_managed(all.skip(i as int)),
        decreases args@.len() - i,
    {
        assert(all.skip(i as int).drop_first() =~= all.skip(i as int + 1));
        let flag = head_before(args[i].as_str(), '=');
        if is_managed_flag(flag.as_str()) {
            return Some(flag);
        }
        i += 1;
    }
    None
}

/// The arguments with every one of the flags taken out and the first of them set.
pub fn with_server_arg(args: &Vec<String>, flags: &Vec<String>, value: &str) -> (r: Vec<String>)
    requires
        flags@.len() > 0,
    ensures
        texts(r@) == with_flag(texts(args@), texts(flags@), value@),
{
    let ghost all = texts(args@);
    let ghost names = texts(flags@);
    let mut updated = no_texts();
    let mut i: usize = 0;
    assert(all.skip(0) =~= all);
    assert(texts(updated@) + without_flags(all, names) =~= without_flags(all, names));
    while i < args.len()
        invariant
            i <= args@.len(),
            all == texts(args@),
            names == texts(flags@),
            texts(updated@) + without_flags(all.skip(i as int), names) == without_flags(all, names),
        decreases args@.len() - i,
    {
        let ghost rest = all.skip(i as int);
        assert(rest.drop_first() =~= all.skip(i as int + 1));
        assert(rest[0] == args@[i as int]@);
        if has_item(flags, args[i].as_str()) {
            if i + 1 < args.len() {
                assert(rest.skip(2) =~= all.skip(i as int + 2));
                i += 2;
            } else {
                assert(all.skip(i as int + 1) =~= Seq::<Seq<char>>::empty());
                i += 1;
            }
        } else {
            let ghost before = texts(updated@);
            put(&mut updated, args[i].as_str());
            assert(texts(updated@) + without_flags(all.skip(i as int + 1), names) =~= before
                + without_flags(rest, names));
            i += 1;
        }
    }
    assert(all.skip(i as int) =~= Seq::<Seq<char>>::empty());
    assert(texts(updated@) =~= without_flags(all, names));
    put(&mut updated, flags[0].as_str());
    put(&mut updated, value);
    updated
}

/// The value behind the last of the given flags that has one.
pub fn extract_server_arg_value(args: &Vec<String>, flags: &Vec<String>) -> (r: Option<String>)
    ensures
        opt_text(r) == last_value(texts(args@), texts(flags@)),
{
    let ghost all = texts(args@);
    let ghost names = texts(flags@);
    let mut value: Option<String> = None;
    let mut i: usize = 0;
    assert(all.skip(0) =~= all);
    while i < args.len()
        invariant
            i <= args@.len(),
            all == texts(args@),
            names == texts(flags@),
            last_value(all, names) == (match last_value(all.skip(i as int), names) {
                Some(v) => Some(v),
                None => opt_text(value),
            }),
        decreases args@.len() - i,
    {
        let ghost rest = all.skip(i as int);
        assert(rest.drop_first() =~= all.skip(i as int + 1));
        assert(rest[0] == args@[i as int]@);
        if has_item(flags, args[i].as_str()) {
            if i + 1 < args.len() {
                assert(rest.skip(2) =~= all.skip(i as int + 2));
                assert(rest[1] == args@[i as int + 1]@);
                value = Some(args[i + 1].as_str().to_owned());
                i += 2;
            } else {
                assert(all.skip(i as int + 1) =~= Seq::<Seq<char>>::empty());
                i += 1;
            }
        } else {
            i += 1;
        }
    }
    assert(all.skip(i as int) =~= Seq::<Seq<char>>::empty());
    value
}

/// Whether the arguments set the context size of a runtime of the given family.
pub fn launch_args_have_ctx_size(family: &str, args: &Vec<String>) -> (r: bool)
    ensures
        r == exists|i: int|
            0 <= i < args@.len() && #[trigger] sets_ctx_size(family@, texts(args@)[i]),
{
    let mut i: usize = 0;
    while i < args.len()
        invariant
            i <= args@.len(),
            forall|j: int| 0 <= j < i ==> !#[trigger] sets_ctx_size(family@, texts(args@)[j]),
        decreases args@.len() - i,
    {
        let flag = head_before(args[i].as_str(), '=');
        let f = flag.as_str();
        let sets = if text_eq(family, "vllm") {
            text_eq(f, "--max-model-len")
        } else if text_eq(family, "llama.cpp") || text_eq(family, "turboquant") {
            text_eq(f, "-c") || text_eq(f, "--ctx-size")
        } else {
            text_eq(f, "-c") || text_eq(f, "--ctx-size") || text_eq(f, "--max-model-len")
        };
        assert(sets == sets_ctx_size(family@, texts(args@)[i as int]));
        if sets {
            return true;
        }
        i += 1;
    }
    false
}

/// The launch arguments that apply.
pub fn merged_launch_args(
    backend_id: &str,
    family: &str,
    defaults: &Vec<String>,
    requested: &Option<Vec<String>>,
) -> (r: Vec<String>)
    ensures
        texts(r@) == merged(
            backend_id@,
            family@,
            texts(defaults@),
            crate::text::compose::opt_texts(*requested),
        ),
{
    match requested {
        None => copy_texts(defaults),
        Some(args) => if !text_eq(family, "llama.cpp") || !has_prefix(backend_id, "llama.cpp-") {
            copy_texts(args)
        } else {
            let mut r = copy_texts(defaults);
            put_all(&mut r, args);
            r
        },
    }
}

proof fn lemma_without_flags(args: Seq<Seq<char>>, flags: Seq<Seq<char>>, i: int)
    requires
        0 <= i < without_flags(args, flags).len(),
    ensures
        !flags.contains(without_flags(args, flags)[i]),
    decreases args.len(),
{
    if args.len() > 0 {
        if flags.contains(args[0]) {
            if args.len() > 1 {
                lemma_without_flags(args.skip(2), flags, i);
            }
        } else if i > 0 {
            lemma_without_flags(args.drop_first(), flags, i - 1);
        }
    }
}

proof fn lemma_last_value_behind(
    args: Seq<Seq<char>>,
    flags: Seq<Seq<char>>,
    flag: Seq<char>,
    value: Seq<char>,
)
    requires
        flags.contains(flag),
        forall|i: int| 0 <= i < args.len() ==> !flags.contains(#[trigger] args[i]),
    ensures
        last_value(args.push(flag).push(value), flags) == Some(value),
    decreases args.len(),
{
    let all = args.push(flag).push(value);
    if args.len() == 0 {
        assert(all[0] == flag && all[1] == value);
        assert(last_value(all.skip(2), flags) is None);
    } else {
        assert(!flags.contains(args[0]));
        assert(all[0] == args[0]);
        let rest = args.drop_first();
        assert forall|i: int| 0 <= i < rest.len() implies !flags.contains(#[trigger] rest[i]) by {
            assert(rest[i] == args[i + 1]);
        }
        assert(all.drop_first() =~= rest.push(flag).push(value));
        lemma_last_value_behind(rest, flags, flag, value);
    }
}

/// A flag that was set is read back with the value it was set to, whatever the
/// arguments held before.
pub proof fn reading_a_set_flag_gives_its_value(
    args: Seq<Seq<char>>,
    flags: Seq<Seq<char>>,
    value: Seq<char>,
)
    requires
        flags.len() > 0,
    ensures
        last_value(with_flag(args, flags, value), flags) == Some(value),
{
    let kept = without_flags(args, flags);
    assert forall|i: int| 0 <= i < kept.len() implies !flags.contains(#[trigger] kept[i]) by {
        lemma_without_flags(args, flags, i);
    }
    assert(flags.contains(flags[0]));
    lemma_last_value_behind(kept, flags, flags[0], value);
}

/// Setting a flag twice leaves the second value alone in place.
pub proof fn setting_a_flag_again_replaces_it(
    args: Seq<Seq<char>>,
    flags: Seq<Seq<char>>,
    first: Seq<char>,
    second: Seq<char>,
)
    requires
        flags.len() > 0,
    ensures
        with_flag(with_flag(args, flags, first), flags, second) == with_flag(args, flags, second),
{
    let kept = without_flags(args, flags);
    assert forall|i: int| 0 <= i < kept.len() implies !flags.contains(#[trigger] kept[i]) by {
        lemma_without_flags(args, flags, i);
    }
    assert(flags.contains(flags[0]));
    lemma_without_appended(kept, flags, flags[0], first);
}

proof fn lemma_without_appended(
    args: Seq<Seq<char>>,
    flags: Seq<Seq<char>>,
    flag: Seq<char>,
    value: Seq<char>,
)
    requires
        flags.contains(flag),
        forall|i: int| 0 <= i < args.len() ==> !flags.contains(#[trigger] args[i]),
    ensures
        without_flags(args.push(flag).push(value), flags) == args,
    decreases args.len(),
{
    let all = args.push(flag).push(value);
    if args.len() == 0 {
        assert(all[0] == flag);
        assert(without_flags(all.skip(2), flags) == args);
    } else {
        assert(!flags.contains(args[0]));
        assert(all[0] == args[0]);
        let rest = args.drop_first();
        assert forall|i: int| 0 <= i < rest.len() implies !flags.contains(#[trigger] rest[i]) by {
            assert(rest[i] == args[i + 1]);
        }
        assert(all.drop_first() =~= rest.push(flag).push(value));
        lemma_without_appended(rest, flags, flag, value);
        assert(seq![args[0]] + rest =~= args);
    }
}

/// Requested arguments come behind the defaults, so that they override them.
pub proof fn requested_args_come_last(
    backend_id: Seq<char>,
    family: Seq<char>,
    defaults: Seq<Seq<char>>,
    requested: Seq<Seq<char>>,
)
    ensures
        merged(backend_id, family, defaults, Some(requested)).len() >= requested.len(),
        merged(backend_id, family, defaults, Some(requested)).skip(
            merged(backend_id, family, defaults, Some(requested)).len() - requested.len(),
        ) == requested,
{
    let all = merged(backend_id, family, defaults, Some(requested));
    assert(all.skip(all.len() - requested.len()) =~= requested);
}

} // verus!
