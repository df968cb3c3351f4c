//! What a launch command says, and whether it keeps caches out of a benchmark.
use vstd::prelude::*;

use crate::failure::Failure;
use crate::json::{member, Json, JsonView};
use crate::text::chars::text_eq;
use crate::text::compose::{no_texts, opt_text, put, texts};
use crate::text::number::{parse_u32, parsed};
use crate::text::search::{
    contains, has_prefix, has_text, starts_with, strip_prefix, without_prefix,
};

verus! {

/// What the argument at a place says of a flag: the number behind it, or behind its
/// equals sign.
pub open spec fn flag_number(args: Seq<Seq<char>>, i: int, flag: Seq<char>) -> Option<nat> {
    if args[i] == flag && i + 1 < args.len() && parsed(args[i + 1], u32::MAX as nat) is Some {
        parsed(args[i + 1], u32::MAX as nat)
    } else {
        match without_prefix(args[i], flag + "="@) {
            Some(value) => parsed(value, u32::MAX as nat),
            None => None,
        }
    }
}

/// What the argument at a place says of the first of several flags that it is about.
pub open spec fn any_flag_number(
    args: Seq<Seq<char>>,
    i: int,
    flags: Seq<Seq<char>>,
) -> Option<nat>
    decreases flags.len(),
{
    if flags.len() == 0 {
        None
    } else if flag_number(args, i, flags[0]) is Some {
        flag_number(args, i, flags[0])
    } else {
        any_flag_number(args, i, flags.drop_first())
    }
}

/// What the first argument from a place on that says something of the flags says.
pub open spec fn first_flag_number(
    args: Seq<Seq<char>>,
    i: int,
    flags: Seq<Seq<char>>,
) -> Option<nat>
    decreases args.len() - i,
{
    if i >= args.len() {
        None
    } else if any_flag_number(args, i, flags) is Some {
        any_flag_number(args, i, flags)
    } else {
        first_flag_number(args, i + 1, flags)
    }
}

fn number_of_flag(args: &Vec<String>, i: usize, flag: &str) -> (r: Option<u32>)
    requires
        i < args.len(),
    ensures
        match r {
            Some(n) => flag_number(texts(args@), i as int, flag@) == Some(n as nat),
            None => flag_number(texts(args@), i as int, flag@) is None,
        },
{
    if text_eq(args[i].as_str(), flag) && i + 1 < args.len() {
        assert(texts(args@)[i as int + 1] == args@[i as int + 1]@);
        if let Some(n) = parse_u32(args[i + 1].as_str()) {
            return Some(n);
        }
    }
    match strip_prefix(args[i].as_str(), flag.to_owned().concat("=").as_str()) {
        Some(value) => parse_u32(value.as_str()),
        None => None,
    }
}

/// The number that a command gives for the first of the flags that it sets.
pub fn infer_positive_flag(args: &Vec<String>, flags: &Vec<String>) -> (r: Option<u32>)
    ensures
        match r {
            Some(n) => first_flag_number(texts(args@), 0, texts(flags@)) == Some(n as nat),
            None => first_flag_number(texts(args@), 0, texts(flags@)) is None,
        },
{
    let ghost all = texts(args@);
    let ghost names = texts(flags@);
    let mut i: usize = 0;
    while i < args.len()
        invariant
            i <= args@.len(),
            all == texts(args@),
            names == texts(flags@),
            first_flag_number(all, 0, names) == first_flag_number(all, i as int, names),
        decreases args@.len() - i,
    {
        let mut k: usize = 0;
        assert(names.skip(0) =~= names);
        while k < flags.len()
            invariant
                i < args@.len(),
                k <= flags@.len(),
                all == texts(args@),
                names == texts(flags@),
                first_flag_number(all, 0, names) == first_flag_number(all, i as int, names),
                any_flag_number(all, i as int, names) == any_flag_number(
                    all,
                    i as int,
                    names.skip(k as int),
                ),
            decreases flags@.len() - k,
        {
            assert(names.skip(k as int).drop_first() =~= names.skip(k as int + 1));
            if let Some(n) = number_of_flag(args, i, flags[k].as_str()) {
                return Some(n);
            }
            k += 1;
        }
        assert(names.skip(k as int) =~= Seq::<Seq<char>>::empty());
        i += 1;
    }
    None
}

/// What an argument says of an option.
pub enum OptionHit {
    Nothing,
    /// It names the option; the value follows.
    Named,
    /// It gives the value behind the equals sign.
    Inline(Seq<char>),
}

/// What an argument says of the first of several options that it is about.
pub open spec fn option_hit(names: Seq<Seq<char>>, arg: Seq<char>) -> OptionHit
    decreases names.len(),
{
    if names.len() == 0 {
        OptionHit::Nothing
    } else if arg == names[0] {
        OptionHit::Named
    } else {
        match without_prefix(arg, names[0] + "="@) {
            Some(value) => OptionHit::Inline(value),
            None => option_hit(names.drop_first(), arg),
        }
    }
}

/// The value that the arguments give last for an option, starting from the value given
/// so far. An option that comes last without a value has none.
pub open spec fn option_value(
    args: Seq<Seq<char>>,
    names: Seq<Seq<char>>,
    so_far: Option<Seq<char>>,
) -> Option<Seq<char>>
    decreases args.len(),
{
    if args.len() == 0 {
        so_far
    } else {
        match option_hit(names, args[0]) {
            OptionHit::Nothing => option_value(args.drop_first(), names, so_far),
            OptionHit::Inline(value) => option_value(args.drop_first(), names, Some(value)),
            OptionHit::Named => if args.len() == 1 {
                None
            } else {
                option_value(args.skip(2), names, Some(args[1]))
            },
        }
    }
}

/// What an argument says of an option, for the code.
enum Hit {
    Nothing,
    Named,
    Inline(String),
}

fn find_hit(names: &Vec<String>, arg: &str) -> (r: Hit)
    ensures
        match r {
            Hit::Nothing => option_hit(texts(names@), arg@) is Nothing,
            Hit::Named => option_hit(texts(names@), arg@) is Named,
            Hit::Inline(value) => option_hit(texts(names@), arg@) == OptionHit::Inline(value@),
        },
{
    let ghost all = texts(names@);
    let mut i: usize = 0;
    assert(all.skip(0) =~= all);
    while i < names.len()
        invariant
            i <= names@.len(),
            all == texts(names@),
            option_hit(all, arg@) == option_hit(all.skip(i as int), arg@),
        decreases names@.len() - i,
    {
        assert(all.skip(i as int).drop_first() =~= all.skip(i as int + 1));
        assert(all.skip(i as int)[0] == names@[i as int]@);
        if text_eq(arg, names[i].as_str()) {
            return Hit::Named;
        }
        if let Some(value) = strip_prefix(arg, names[i].as_str().to_owned().concat("=").as_str()) {
            return Hit::Inline(value);
        }
        i += 1;
    }
    Hit::Nothing
}

/// The value that the arguments give last for an option.
pub fn last_option_value(args: &Vec<String>, names: &Vec<String>) -> (r: Option<String>)
    ensures
        opt_text(r) == option_value(texts(args@), texts(names@), None),
{
    let ghost all = texts(args@);
    let ghost ns = texts(names@);
    let mut result: Option<String> = None;
    let mut i: usize = 0;
    assert(all.skip(0) =~= all);
    while i < args.len()
        invariant
            i <= args@.len(),
            all == texts(args@),
            ns == texts(names@),
            option_value(all, ns, None) == option_value(all.skip(i as int), ns, opt_text(result)),
        decreases args@.len() - i,
    {
        let ghost rest = all.skip(i as int);
        assert(rest.drop_first() =~= all.skip(i as int + 1));
        assert(rest[0] == args@[i as int]@);
        match find_hit(names, args[i].as_str()) {
            Hit::Nothing => {
                i += 1;
            },
            Hit::Inline(value) => {
                result = Some(value);
                i += 1;
            },
            Hit::Named => {
                if i + 1 < args.len() {
                    assert(rest.skip(2) =~= all.skip(i as int + 2));
                    assert(rest[1] == args@[i as int + 1]@);
                    result = Some(args[i + 1].as_str().to_owned());
                    i += 2;
                } else {
                    assert(all.skip(i as int + 1) =~= Seq::<Seq<char>>::empty());
                    result = None;
                    i += 1;
                }
            },
        }
    }
    assert(all.skip(i as int) =~= Seq::<Seq<char>>::empty());
    result
}

/// What the arguments say last of something that can be switched on and off.
pub open spec fn toggled(args: Seq<Seq<char>>, enabled: Seq<char>, disabled: Seq<char>) -> Option<
    bool,
>
    decreases args.len(),
{
    if args.len() == 0 {
        None
    } else if args.last() == enabled {
        Some(true)
    } else if args.last() == disabled {
        Some(false)
    } else {
        toggled(args.drop_last(), enabled, disabled)
    }
}

/// What the arguments say last of something that can be switched on and off.
pub fn last_toggle(args: &Vec<String>, enabled: &str, disabled: &str) -> (r: Option<bool>)
    ensures
        r == toggled(texts(args@), enabled@, disabled@),
{
    let ghost all = texts(args@);
    let mut value: Option<bool> = None;
    let mut i: usize = 0;
    while i < args.len()
        invariant
            i <= args@.len(),
            all == texts(args@),
            value == toggled(all.take(i as int), enabled@, disabled@),
        decreases args@.len() - i,
    {
        assert(all.take(i as int + 1).drop_last() =~= all.take(i as int));
        assert(all.take(i as int + 1).last() == args@[i as int]@);
        if text_eq(args[i].as_str(), enabled) {
            value = Some(true);
        } else if text_eq(args[i].as_str(), disabled) {
            value = Some(false);
        }
        i += 1;
    }
    assert(all.take(i as int) =~= all);
    value
}

/// The value of the option that says how similar prompts must be to share a slot.
pub open spec fn similarity_value(args: Seq<Seq<char>>) -> Option<Seq<char>> {
    option_value(args, seq!["--slot-prompt-similarity"@], None)
}

/// The value of the option that says how similar prompts must be to share a slot.
pub fn slot_prompt_similarity(args: &Vec<String>) -> (r: Option<String>)
    ensures
        opt_text(r) == similarity_value(texts(args@)),
{
    let mut names = no_texts();
    put(&mut names, "--slot-prompt-similarity");
    last_option_value(args, &names)
}

/// Whether a command keeps every cache out of a run. `similarity_is_zero` is whether
/// the value of the similarity option, read as a number, is zero.
pub open spec fn isolated(args: Seq<Seq<char>>, similarity_is_zero: bool) -> bool {
    &&& option_value(args, seq!["-cram"@, "--cache-ram"@], None) == Some("0"@)
    &&& similarity_value(args) is Some && similarity_is_zero
    &&& toggled(args, "--cache-prompt"@, "--no-cache-prompt"@) == Some(false)
    &&& toggled(args, "--cache-idle-slots"@, "--no-cache-idle-slots"@) == Some(false)
    &&& option_value(args, seq!["--slot-save-path"@], None) is Some
    &&& option_value(args, seq!["--slot-save-path"@], None)->0.len() > 0
}

/// Why a runtime cannot be benchmarked without caches.
pub open spec fn isolation_refusal(
    backend: Seq<char>,
    args: Seq<Seq<char>>,
    similarity_is_zero: bool,
    state: JsonView,
) -> Option<Seq<char>> {
    if member(state, "mmproj"@) is Some && member(state, "mmproj"@)->0 != JsonView::Null {
        Some(
            "The standard text benchmark cannot use a loaded mmproj. Reload the text model without --mmproj."@,
        )
    } else if !(starts_with(backend, "llama.cpp-"@) || contains(backend, "turboquant"@)) {
        Some(
            "Backend "@ + backend
                + " cannot currently prove per-run cache erasure. OmniInfer bench fails closed instead of labeling a cached run as cold."@,
        )
    } else if !isolated(args, similarity_is_zero) {
        Some(
            "The loaded llama.cpp runtime is not benchmark-isolated. Reload it with `-- --cache-ram 0 --no-cache-idle-slots --no-cache-prompt --slot-prompt-similarity 0 --slot-save-path <empty-directory>`."@,
        )
    } else {
        None
    }
}

/// Refuses a runtime that cannot be benchmarked without caches.
pub fn validate_cache_isolation(
    backend: &str,
    launch_args: &Vec<String>,
    similarity_is_zero: bool,
    state: &Json,
) -> (r: Result<(), Failure>)
    ensures
        match r {
            Ok(_) => isolation_refusal(
                backend@,
                texts(launch_args@),
                similarity_is_zero,
                state@,
            ) is None,
            Err(e) => isolation_refusal(
                backend@,
                texts(launch_args@),
                similarity_is_zero,
                state@,
            ) == Some(e@),
        },
{
    let projector = match state.get("mmproj") {
        Some(Json::Null) => false,
        Some(_) => true,
        None => false,
    };
    if projector {
        return Err(
            Failure::new(
                "The standard text benchmark cannot use a loaded mmproj. Reload the text model without --mmproj.",
            ),
        );
    }
    if !(has_prefix(backend, "llama.cpp-") || has_text(backend, "turboquant")) {
        return Err(
            Failure::of(
                "Backend ",
                backend,
                " cannot currently prove per-run cache erasure. OmniInfer bench fails closed instead of labeling a cached run as cold.",
            ),
        );
    }
    let mut ram_names = no_texts();
    put(&mut ram_names, "-cram");
    put(&mut ram_names, "--cache-ram");
    assert(texts(ram_names@) =~= seq!["-cram"@, "--cache-ram"@]);
    let mut path_names = no_texts();
    put(&mut path_names, "--slot-save-path");
    let cache_ram = last_option_value(launch_args, &ram_names);
    let similarity = slot_prompt_similarity(launch_args);
    let slot_path = last_option_value(launch_args, &path_names);
    let no_ram = match &cache_ram {
        Some(value) => text_eq(value.as_str(), "0"),
        None => false,
    };
    let has_path = match &slot_path {
        Some(path) => !path.as_str().is_empty(),
        None => false,
    };
    let fine = no_ram && similarity.is_some() && similarity_is_zero && last_toggle(
        launch_args,
        "--cache-prompt",
        "--no-cache-prompt",
    ) == Some(false) && last_toggle(
        launch_args,
        "--cache-idle-slots",
        "--no-cache-idle-slots",
    ) == Some(false) && has_path;
    if !fine {
        return Err(
            Failure::new(
                "The loaded llama.cpp runtime is not benchmark-isolated. Reload it with `-- --cache-ram 0 --no-cache-idle-slots --no-cache-prompt --slot-prompt-similarity 0 --slot-save-path <empty-directory>`.",
            ),
        );
    }
    Ok(())
}

/// What comes last counts: behind any arguments, a switch decides.
pub proof fn the_last_toggle_counts(
    args: Seq<Seq<char>>,
    enabled: Seq<char>,
    disabled: Seq<char>,
)
    requires
        enabled != disabled,
    ensures
        toggled(args.push(enabled), enabled, disabled) == Some(true),
        toggled(args.push(disabled), enabled, disabled) == Some(false),
{
    assert(args.push(enabled).last() == enabled);
    assert(args.push(disabled).last() == disabled);
}

} // verus!
