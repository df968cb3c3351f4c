//! The optimizations of a benchmark: what is declared must cover what is seen.
use vstd::prelude::*;

use crate::benchmark::ids::{optimization_slug, valid_optimization_slug};
use crate::failure::Failure;
use crate::text::chars::{lowered, text_eq, to_lower};
use crate::text::compose::{join, joined, no_texts, put, texts};
use crate::text::order::{in_order, place};
use crate::text::search::{contains, has_prefix, has_text, starts_with};
use crate::text::trim::{trim, trimmed};

verus! {

/// Whether a backend or one of its arguments speaks of a method, in any case of letters.
pub open spec fn speaks_of(backend: Seq<char>, args: Seq<Seq<char>>, method: Seq<char>) -> bool {
    contains(lowered(backend), method) || exists|i: int|
        0 <= i < args.len() && contains(lowered(#[trigger] args[i]), method)
}

/// The methods that a backend and its arguments speak of.
pub open spec fn methods_seen(backend: Seq<char>, args: Seq<Seq<char>>) -> Seq<Seq<char>> {
    let first = if speaks_of(backend, args, "dflash"@) {
        Seq::<Seq<char>>::empty().push("dflash"@)
    } else {
        Seq::<Seq<char>>::empty()
    };
    if speaks_of(backend, args, "turboquant"@) {
        first.push("turboquant"@)
    } else {
        first
    }
}

fn mentions(backend: &str, args: &Vec<String>, method: &str) -> (r: bool)
    ensures
        r == speaks_of(backend@, texts(args@), method@),
{
    if has_text(to_lower(backend).as_str(), method) {
        return true;
    }
    let mut i: usize = 0;
    while i < args.len()
        invariant
            i <= args@.len(),
            !contains(lowered(backend@), method@),
            forall|j: int| 0 <= j < i ==> !contains(lowered(#[trigger] texts(args@)[j]), method@),
        decreases args@.len() - i,
    {
        assert(texts(args@)[i as int] == args@[i as int]@);
        if has_text(to_lower(args[i].as_str()).as_str(), method) {
            return true;
        }
        i += 1;
    }
    false
}

/// The methods that a backend and its arguments speak of.
pub fn detect_optimizations(backend: &str, launch_args: &Vec<String>) -> (r: Vec<String>)
    ensures
        texts(r@) == methods_seen(backend@, texts(launch_args@)),
{
    let mut r = no_texts();
    if mentions(backend, launch_args, "dflash") {
        put(&mut r, "dflash");
    }
    if mentions(backend, launch_args, "turboquant") {
        put(&mut r, "turboquant");
    }
    r
}

pub open spec fn all_trimmed(v: Seq<Seq<char>>) -> Seq<Seq<char>> {
    Seq::new(v.len(), |i: int| trimmed(v[i]))
}

/// The methods that are declared, in order, each once.
pub open spec fn methods_declared(options: Seq<Seq<char>>) -> Seq<Seq<char>> {
    in_order(all_trimmed(options))
}

/// The first of the texts that is no identifier of an optimization.
pub open spec fn first_bad_slug(v: Seq<Seq<char>>) -> Option<Seq<char>>
    decreases v.len(),
{
    if v.len() == 0 {
        None
    } else if !optimization_slug(v[0]) {
        Some(v[0])
    } else {
        first_bad_slug(v.drop_first())
    }
}

/// Whether a method is declared, by its own name or by that of a variant of it.
pub open spec fn covers(declared: Seq<Seq<char>>, method: Seq<char>) -> bool {
    exists|i: int|
        0 <= i < declared.len() && (#[trigger] declared[i] == method || starts_with(
            declared[i],
            method + "-"@,
        ))
}

pub open spec fn first_uncovered(declared: Seq<Seq<char>>, seen: Seq<Seq<char>>) -> Option<
    Seq<char>,
>
    decreases seen.len(),
{
    if seen.len() == 0 {
        None
    } else if !covers(declared, seen[0]) {
        Some(seen[0])
    } else {
        first_uncovered(declared, seen.drop_first())
    }
}

/// What is declared of the optimizations: the mode and the methods.
pub open spec fn declaration(
    options: Seq<Seq<char>>,
    baseline: bool,
    seen: Seq<Seq<char>>,
) -> Result<(Seq<char>, Seq<Seq<char>>), Seq<char>> {
    let declared = methods_declared(options);
    if declared.len() != options.len() {
        Err("--optimization values must be unique."@)
    } else if first_bad_slug(declared) is Some {
        Err("invalid --optimization slug: "@ + first_bad_slug(declared)->0)
    } else if baseline {
        if seen.len() > 0 {
            Err(
                "Runtime state indicates active optimization(s): "@ + joined(seen, ", "@)
                    + ". Do not declare --baseline."@,
            )
        } else {
            Ok(("baseline"@, seq![]))
        }
    } else {
        match first_uncovered(declared, seen) {
            Some(method) => Err(
                "Runtime state indicates optimization "@ + method
                    + ". Rerun with --optimization "@ + method
                    + " so the declaration is explicit."@,
            ),
            None => Ok(("optimized"@, declared)),
        }
    }
}

fn find_bad_slug(v: &Vec<String>) -> (r: Option<usize>)
    ensures
        match r {
            Some(i) => i < v@.len() && first_bad_slug(texts(v@)) == Some(v@[i as int]@),
            None => first_bad_slug(texts(v@)) is None,
        },
{
    let ghost all = texts(v@);
    let mut i: usize = 0;
    assert(all.skip(0) =~= all);
    while i < v.len()
        invariant
            i <= v@.len(),
            all == texts(v@),
            first_bad_slug(all) == first_bad_slug(all.skip(i as int)),
        decreases v@.len() - i,
    {
        assert(all.skip(i as int).drop_first() =~= all.skip(i as int + 1));
        if !valid_optimization_slug(v[i].as_str()) {
            return Some(i);
        }
        i += 1;
    }
    None
}

fn is_covered(declared: &Vec<String>, method: &str) -> (r: bool)
    ensures
        r == covers(texts(declared@), method@),
{
    let variant = method.to_owned().concat("-");
    let mut i: usize = 0;
    while i < declared.len()
        invariant
            i <= declared@.len(),
            variant@ == method@ + "-"@,
            forall|j: int|
                0 <= j < i ==> !(#[trigger] texts(declared@)[j] == method@ || starts_with(
                    texts(declared@)[j],
                    method@ + "-"@,
                )),
        decreases declared@.len() - i,
    {
        assert(texts(declared@)[i as int] == declared@[i as int]@);
        if text_eq(declared[i].as_str(), method) || has_prefix(
            declared[i].as_str(),
            variant.as_str(),
        ) {
            return true;
        }
        i += 1;
    }
    false
}

fn find_uncovered(declared: &Vec<String>, seen: &Vec<String>) -> (r: Option<usize>)
    ensures
        match r {
            Some(i) => i < seen@.len() && first_uncovered(texts(declared@), texts(seen@)) == Some(
                seen@[i as int]@,
            ),
            None => first_uncovered(texts(declared@), texts(seen@)) is None,
        },
{
    let ghost all = texts(seen@);
    let mut i: usize = 0;
    assert(all.skip(0) =~= all);
    while i < seen.len()
        invariant
            i <= seen@.len(),
            all == texts(seen@),
            first_uncovered(texts(declared@), all) == first_uncovered(
                texts(declared@),
                all.skip(i as int),
            ),
        decreases seen@.len() - i,
    {
        assert(all.skip(i as int).drop_first() =~= all.skip(i as int + 1));
        if !is_covered(declared, seen[i].as_str()) {
            return Some(i);
        }
        i += 1;
    }
    None
}

/// What is declared of the optimizations: the mode and the methods.
pub fn resolve_optimization_declaration(
    optimizations: &Vec<String>,
    baseline: bool,
    detected: &Vec<String>,
) -> (r: Result<(String, Vec<String>), Failure>)
    ensures
        match r {
            Ok((mode, methods)) => declaration(texts(optimizations@), baseline, texts(detected@))
                == Ok::<(Seq<char>, Seq<Seq<char>>), Seq<char>>((mode@, texts(methods@))),
            Err(e) => declaration(texts(optimizations@), baseline, texts(detected@)) == Err::<
                (Seq<char>, Seq<Seq<char>>),
                Seq<char>,
            >(e@),
        },
{
    let ghost all = all_trimmed(texts(optimizations@));
    let mut declared = no_texts();
    let mut i: usize = 0;
    assert(texts(declared@) =~= in_order(all.take(0)));
    while i < optimizations.len()
        invariant
            i <= optimizations@.len(),
            all == all_trimmed(texts(optimizations@)),
            texts(declared@) == in_order(all.take(i as int)),
        decreases optimizations@.len() - i,
    {
        assert(all.take(i as int + 1).drop_last() =~= all.take(i as int));
        place(&mut declared, trim(optimizations[i].as_str()).as_str());
        i += 1;
    }
    assert(all.take(i as int) =~= all);
    assert(texts(declared@).len() == declared@.len());
    if declared.len() != optimizations.len() {
        return Err(Failure::new("--optimization values must be unique."));
    }
    if let Some(bad) = find_bad_slug(&declared) {
        return Err(Failure::about("invalid --optimization slug: ", declared[bad].as_str()));
    }
    assert(texts(detected@).len() == detected@.len());
    if baseline {
        if detected.len() > 0 {
            return Err(
                Failure::of(
                    "Runtime state indicates active optimization(s): ",
                    join(detected, ", ").as_str(),
                    ". Do not declare --baseline.",
                ),
            );
        }
        return Ok(("baseline".to_owned(), no_texts()));
    }
    if let Some(k) = find_uncovered(&declared, detected) {
        let method = detected[k].as_str();
        let message = "Runtime state indicates optimization ".to_owned().concat(method).concat(
            ". Rerun with --optimization ",
        ).concat(method).concat(" so the declaration is explicit.");
        return Err(Failure { message });
    }
    Ok(("optimized".to_owned(), declared))
}

proof fn lemma_all_covered(declared: Seq<Seq<char>>, seen: Seq<Seq<char>>, i: int)
    requires
        first_uncovered(declared, seen) is None,
        0 <= i < seen.len(),
    ensures
        covers(declared, seen[i]),
    decreases seen.len(),
{
    if i > 0 {
        lemma_all_covered(declared, seen.drop_first(), i - 1);
    }
}

/// No benchmark hides a method that was seen: a baseline is declared only where none was
/// seen, and otherwise every method that was seen is declared.
pub proof fn declarations_hide_nothing(
    options: Seq<Seq<char>>,
    baseline: bool,
    seen: Seq<Seq<char>>,
    i: int,
)
    requires
        declaration(options, baseline, seen) is Ok,
        0 <= i < seen.len(),
    ensures
        !baseline,
        covers(methods_declared(options), seen[i]),
{
    lemma_all_covered(methods_declared(options), seen, i);
}

} // verus!
