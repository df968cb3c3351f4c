//! Identifiers: which are accepted, and how one is made for a benchmark.
use vstd::prelude::*;

use crate::failure::Failure;
use crate::outside::{lowercase_of, small_letters};
use crate::text::chars::{
    alphanumeric, chars_of, digit, is_alphanumeric, is_digit, is_lower_letter, lower_letter,
    lowered_char, string_of, text_eq, upper_letter,
};
use crate::text::number::{decimal, digit_char, hex_digits, show_hex, show_signed, signed_decimal};
use crate::text::search::starts_with;
use crate::text::trim::{
    both_trimmed, left_trimmed, lemma_left_trimmed, lemma_right_trimmed, trim_of, CharClass,
};

verus! {

pub open spec fn joiner(c: char) -> bool {
    c == '.' || c == '_' || c == '-'
}

/// A character of an identifier in small letters.
pub open spec fn slug_char(c: char, first: bool) -> bool {
    lower_letter(c) || digit(c) || (!first && joiner(c))
}

/// A character of an identifier of a catalog.
pub open spec fn catalog_char(c: char, first: bool) -> bool {
    alphanumeric(c) || (!first && joiner(c))
}

pub open spec fn all_slug_chars(s: Seq<char>) -> bool {
    forall|i: int| 0 <= i < s.len() ==> slug_char(#[trigger] s[i], i == 0)
}

/// An identifier of a catalog.
pub open spec fn catalog_id(s: Seq<char>) -> bool {
    1 <= s.len() <= 128 && forall|i: int|
        0 <= i < s.len() ==> catalog_char(#[trigger] s[i], i == 0)
}

/// An identifier of an optimization; the words for having none are not one.
pub open spec fn optimization_slug(s: Seq<char>) -> bool {
    &&& s != "none"@
    &&& s != "baseline"@
    &&& s != "default"@
    &&& 1 <= s.len() <= 64
    &&& all_slug_chars(s)
}

/// An identifier of a benchmark.
pub open spec fn benchmark_id(s: Seq<char>) -> bool {
    3 <= s.len() <= 128 && all_slug_chars(s)
}

fn is_slug_text(v: &Vec<char>) -> (r: bool)
    ensures
        r == all_slug_chars(v@),
{
    let mut i: usize = 0;
    while i < v.len()
        invariant
            i <= v@.len(),
            forall|j: int| 0 <= j < i ==> slug_char(#[trigger] v@[j], j == 0),
        decreases v@.len() - i,
    {
        let c = v[i];
        if !(is_lower_letter(c) || is_digit(c) || (i > 0 && (c == '.' || c == '_' || c == '-'))) {
            assert(!slug_char(v@[i as int], i == 0));
            return false;
        }
        i += 1;
    }
    true
}

/// Whether a text is an identifier of a catalog.
pub fn valid_catalog_id(value: &str) -> (r: bool)
    ensures
        r == catalog_id(value@),
{
    let v = chars_of(value);
    if v.len() < 1 || v.len() > 128 {
        return false;
    }
    let mut i: usize = 0;
    while i < v.len()
        invariant
            i <= v@.len(),
            v@ == value@,
            1 <= v@.len() <= 128,
            forall|j: int| 0 <= j < i ==> catalog_char(#[trigger] v@[j], j == 0),
        decreases v@.len() - i,
    {
        let c = v[i];
        if !(is_alphanumeric(c) || (i > 0 && (c == '.' || c == '_' || c == '-'))) {
            assert(!catalog_char(v@[i as int], i == 0));
            return false;
        }
        i += 1;
    }
    true
}

/// Whether a text is an identifier of an optimization.
pub fn valid_optimization_slug(value: &str) -> (r: bool)
    ensures
        r == optimization_slug(value@),
{
    if text_eq(value, "none") || text_eq(value, "baseline") || text_eq(value, "default") {
        return false;
    }
    let v = chars_of(value);
    v.len() >= 1 && v.len() <= 64 && is_slug_text(&v)
}

pub open spec fn bad_benchmark_id_message() -> Seq<char> {
    "benchmark ID must be 3-128 lowercase ASCII letters, digits, dots, underscores, or hyphens."@
}

/// Refuses a text that is no identifier of a benchmark.
pub fn validate_benchmark_id(value: &str) -> (r: Result<(), Failure>)
    ensures
        match r {
            Ok(_) => benchmark_id(value@),
            Err(e) => !benchmark_id(value@) && e@ == bad_benchmark_id_message(),
        },
{
    let v = chars_of(value);
    if v.len() >= 3 && v.len() <= 128 && is_slug_text(&v) {
        return Ok(());
    }
    Err(
        Failure::new(
            "benchmark ID must be 3-128 lowercase ASCII letters, digits, dots, underscores, or hyphens.",
        ),
    )
}

/// The small letters of a text.
pub open spec fn lowercase_text(s: Seq<char>) -> Seq<char>
    decreases s.len(),
{
    if s.len() == 0 {
        seq![]
    } else {
        lowercase_text(s.drop_last()) + small_letters(s.last())
    }
}

/// The letters and digits of a text, with one hyphen for whatever stands between them.
pub open spec fn slug_so_far(s: Seq<char>) -> Seq<char>
    decreases s.len(),
{
    if s.len() == 0 {
        seq![]
    } else {
        let before = slug_so_far(s.drop_last());
        if alphanumeric(s.last()) {
            before.push(s.last())
        } else if before.len() > 0 && alphanumeric(s[s.len() - 2]) {
            before.push('-')
        } else {
            before
        }
    }
}

/// A text as part of an identifier.
pub open spec fn slug(s: Seq<char>) -> Seq<char> {
    both_trimmed(slug_so_far(lowercase_text(s)), CharClass::Only('-'))
}

proof fn lemma_slug_start(s: Seq<char>)
    ensures
        slug_so_far(s).len() == 0 <==> forall|i: int|
            0 <= i < s.len() ==> !alphanumeric(#[trigger] s[i]),
        slug_so_far(s).len() <= s.len(),
    decreases s.len(),
{
    if s.len() > 0 {
        let rest = s.drop_last();
        lemma_slug_start(rest);
        assert(forall|i: int| 0 <= i < rest.len() ==> rest[i] == #[trigger] s[i]);
        if slug_so_far(s).len() > 0 && alphanumeric(s.last()) {
            assert(alphanumeric(s[s.len() - 1]));
        }
        if slug_so_far(rest).len() > 0 {
            let i = choose|i: int| 0 <= i < rest.len() && alphanumeric(#[trigger] rest[i]);
            assert(alphanumeric(s[i]));
        }
    }
}

/// A text as part of an identifier.
pub fn slug_component(value: &str) -> (r: String)
    ensures
        r@ == slug(value@),
        small(r@),
{
    let v = chars_of(value);
    let mut lower: Vec<char> = Vec::new();
    let mut i: usize = 0;
    assert(lower@ =~= lowercase_text(v@.take(0)));
    while i < v.len()
        invariant
            i <= v@.len(),
            lower@ == lowercase_text(v@.take(i as int)),
            forall|j: int| 0 <= j < lower@.len() ==> !upper_letter(#[trigger] lower@[j]),
        decreases v@.len() - i,
    {
        assert(v@.take(i as int + 1).drop_last() =~= v@.take(i as int));
        let mut mapped = lowercase_of(v[i]);
        lower.append(&mut mapped);
        i += 1;
    }
    assert(v@.take(i as int) =~= v@);
    let mut slug_text = String::new();
    let mut empty = true;
    let mut separator = false;
    let mut k: usize = 0;
    assert(slug_text@ =~= slug_so_far(lower@.take(0)));
    while k < lower.len()
        invariant
            k <= lower@.len(),
            slug_text@ == slug_so_far(lower@.take(k as int)),
            empty == (slug_text@.len() == 0),
            !empty ==> k > 0 && separator == !alphanumeric(lower@[k - 1]),
        decreases lower@.len() - k,
    {
        let ghost now = lower@.take(k as int + 1);
        assert(now.drop_last() =~= lower@.take(k as int));
        assert(now.last() == lower@[k as int]);
        if k > 0 {
            assert(now[now.len() - 2] == lower@[k - 1]);
        }
        let c = lower[k];
        if is_alphanumeric(c) {
            slug_text.push(c);
            empty = false;
            separator = false;
        } else if !separator && !empty {
            slug_text.push('-');
            separator = true;
        }
        k += 1;
    }
    assert(lower@.take(k as int) =~= lower@);
    proof {
        lemma_small_slug(lower@);
        lemma_small_part(slug_so_far(lower@), CharClass::Only('-'));
    }
    trim_of(slug_text.as_str(), CharClass::Only('-'))
}

/// The part of an identifier that stands for a point in time.
pub open spec fn id_start(seconds: int, nanoseconds: nat) -> Seq<char> {
    "omniinfer-"@ + signed_decimal(seconds) + "-"@ + hex_digits(nanoseconds, 8)
}

/// The part of an identifier that stands for what was measured, cut to the given length.
pub open spec fn id_end(model: Seq<char>, backend: Seq<char>, available: nat) -> Seq<char> {
    let whole = slug(model) + "-"@ + slug(backend);
    let cut = if whole.len() <= available {
        whole
    } else {
        whole.take(available as int)
    };
    both_trimmed(cut, CharClass::Only('-'))
}

/// The identifier of a benchmark that was begun at a point in time.
pub open spec fn generated_id(
    model: Seq<char>,
    backend: Seq<char>,
    seconds: int,
    nanoseconds: nat,
) -> Seq<char> {
    let start = id_start(seconds, nanoseconds);
    let available = if start.len() + 2 <= 128 {
        (128 - (start.len() + 2)) as nat
    } else {
        0
    };
    start + "-"@ + id_end(model, backend, available)
}

/// The identifier of a benchmark that was begun at a point in time. It is one that is
/// accepted, whatever the names of the model and the backend are.
pub fn generated_benchmark_id(
    model: &str,
    backend: &str,
    seconds: i64,
    nanoseconds: u32,
) -> (r: String)
    ensures
        r@ == generated_id(model@, backend@, seconds as int, nanoseconds as nat),
        benchmark_id(r@),
        starts_with(r@, "omniinfer-"@),
        small(r@),
{
    let start = "omniinfer-".to_owned().concat(show_signed(seconds).as_str()).concat("-").concat(
        show_hex(nanoseconds as u64, 8).as_str(),
    );
    let taken: usize = chars_of(start.as_str()).len();
    let available: usize = if taken < 127 {
        126 - taken
    } else {
        0
    };
    let model_slug = slug_component(model);
    let backend_slug = slug_component(backend);
    proof {
        lemma_id_from_slugs(model@, backend@, seconds, nanoseconds);
    }
    let whole = model_slug.concat("-").concat(backend_slug.as_str());
    let v = chars_of(whole.as_str());
    let cut = if v.len() <= available {
        whole
    } else {
        let cut = string_of(&v, 0, available);
        assert(cut@ =~= whole@.take(available as int));
        cut
    };
    let identity = trim_of(cut.as_str(), CharClass::Only('-'));
    start.concat("-").concat(identity.as_str())
}

pub open spec fn ascii(s: Seq<char>) -> bool {
    forall|i: int| 0 <= i < s.len() ==> (#[trigger] s[i] as int) < 128
}

/// A text of small letters, digits and hyphens.
pub open spec fn small(s: Seq<char>) -> bool {
    forall|i: int|
        0 <= i < s.len() ==> lower_letter(#[trigger] s[i]) || digit(s[i]) || s[i] == '-'
}

proof fn lemma_lowercase_ascii(s: Seq<char>)
    requires
        ascii(s),
    ensures
        lowercase_text(s) == crate::text::chars::lowered(s),
    decreases s.len(),
{
    if s.len() > 0 {
        let rest = s.drop_last();
        assert forall|i: int| 0 <= i < rest.len() implies (#[trigger] rest[i] as int) < 128 by {
            assert(rest[i] == s[i]);
        }
        lemma_lowercase_ascii(rest);
        assert((s[s.len() - 1] as int) < 128);
    }
    assert(lowercase_text(s) =~= crate::text::chars::lowered(s));
}

proof fn lemma_small_slug(s: Seq<char>)
    requires
        forall|i: int| 0 <= i < s.len() ==> !upper_letter(#[trigger] s[i]),
    ensures
        small(slug_so_far(s)),
    decreases s.len(),
{
    if s.len() > 0 {
        let rest = s.drop_last();
        assert forall|i: int| 0 <= i < rest.len() implies !upper_letter(
            #[trigger] rest[i],
        ) by {
            assert(rest[i] == s[i]);
        }
        lemma_small_slug(rest);
        assert(!upper_letter(s[s.len() - 1]));
    }
}

proof fn lemma_small_part(s: Seq<char>, class: CharClass)
    requires
        small(s),
    ensures
        small(both_trimmed(s, class)),
        both_trimmed(s, class).len() <= s.len(),
{
    lemma_left_trimmed(s, class);
    lemma_right_trimmed(left_trimmed(s, class), class);
    let l = left_trimmed(s, class);
    let r = both_trimmed(s, class);
    assert forall|i: int| 0 <= i < l.len() implies lower_letter(#[trigger] l[i]) || digit(l[i])
        || l[i] == '-' by {
        assert(l[i] == s[s.len() - l.len() + i]);
    }
    assert forall|i: int| 0 <= i < r.len() implies lower_letter(#[trigger] r[i]) || digit(r[i])
        || r[i] == '-' by {
        assert(r[i] == l[i]);
    }
}

proof fn lemma_decimal_small(n: nat)
    ensures
        small(decimal(n)),
    decreases n,
{
    if n >= 10 {
        lemma_decimal_small(n / 10);
    }
}

proof fn lemma_decimal_length(n: nat, k: nat)
    requires
        n < pow10(k),
        k > 0,
    ensures
        decimal(n).len() <= k,
    decreases n,
{
    if n >= 10 {
        assert(k > 1) by {
            if k == 1 {
                assert(pow10(1) == 10 * pow10(0));
            }
        }
        lemma_decimal_length(n / 10, (k - 1) as nat);
    }
}

pub open spec fn pow10(k: nat) -> nat
    decreases k,
{
    if k == 0 {
        1
    } else {
        10 * pow10((k - 1) as nat)
    }
}

proof fn lemma_hex_small(n: nat, width: nat)
    ensures
        small(hex_digits(n, width)),
        hex_digits(n, width).len() == width,
    decreases width,
{
    if width > 0 {
        lemma_hex_small(n / 16, (width - 1) as nat);
        let d = n % 16;
        if d < 10 {
            assert(digit(digit_char(d)));
        } else {
            assert(lower_letter(digit_char(d)));
        }
    }
}

/// An identifier that is made from names in ASCII is accepted, whenever the benchmark was
/// begun.
pub proof fn generated_ids_are_accepted(
    model: Seq<char>,
    backend: Seq<char>,
    seconds: i64,
    nanoseconds: u32,
)
    requires
        ascii(model),
        ascii(backend),
    ensures
        benchmark_id(generated_id(model, backend, seconds as int, nanoseconds as nat)),
{
    lemma_slug_of_ascii(model);
    lemma_slug_of_ascii(backend);
    lemma_id_from_slugs(model, backend, seconds, nanoseconds);
}

proof fn lemma_id_from_slugs(
    model: Seq<char>,
    backend: Seq<char>,
    seconds: i64,
    nanoseconds: u32,
)
    requires
        small(slug(model)),
        small(slug(backend)),
    ensures
        benchmark_id(generated_id(model, backend, seconds as int, nanoseconds as nat)),
        small(generated_id(model, backend, seconds as int, nanoseconds as nat)),
        starts_with(
            generated_id(model, backend, seconds as int, nanoseconds as nat),
            "omniinfer-"@,
        ),
{
    let start = id_start(seconds as int, nanoseconds as nat);
    let positive = if seconds < 0 {
        (-(seconds as int)) as nat
    } else {
        seconds as nat
    };
    lemma_decimal_small(positive);
    assert(pow10(20) >= 0x8000_0000_0000_0000) by {
        reveal_with_fuel(pow10, 21);
    }
    lemma_decimal_length(positive, 20);
    lemma_hex_small(nanoseconds as nat, 8);
    reveal_strlit("omniinfer-");
    reveal_strlit("-");
    assert("omniinfer-"@ =~= seq!['o', 'm', 'n', 'i', 'i', 'n', 'f', 'e', 'r', '-']);
    assert(small("omniinfer-"@));
    assert(small(signed_decimal(seconds as int)));
    assert(signed_decimal(seconds as int).len() <= 21);
    lemma_small_add("omniinfer-"@, signed_decimal(seconds as int));
    lemma_small_add("omniinfer-"@ + signed_decimal(seconds as int), "-"@);
    lemma_small_add(
        "omniinfer-"@ + signed_decimal(seconds as int) + "-"@,
        hex_digits(nanoseconds as nat, 8),
    );
    assert(start.len() <= 40);
    let available = (128 - (start.len() + 2)) as nat;
    let whole = slug(model) + "-"@ + slug(backend);
    lemma_small_add(slug(model), "-"@);
    lemma_small_add(slug(model) + "-"@, slug(backend));
    let cut = if whole.len() <= available {
        whole
    } else {
        whole.take(available as int)
    };
    assert(small(cut)) by {
        assert forall|i: int| 0 <= i < cut.len() implies lower_letter(#[trigger] cut[i]) || digit(
            cut[i],
        ) || cut[i] == '-' by {
            assert(cut[i] == whole[i]);
        }
    }
    lemma_small_part(cut, CharClass::Only('-'));
    let end = id_end(model, backend, available);
    lemma_small_add(start, "-"@);
    lemma_small_add(start + "-"@, end);
    let id = generated_id(model, backend, seconds as int, nanoseconds as nat);
    assert(id == start + "-"@ + end);
    assert(id[0] == 'o');
    assert(id.subrange(0, 10) =~= "omniinfer-"@);
    assert forall|i: int| 0 <= i < id.len() implies slug_char(#[trigger] id[i], i == 0) by {
        assert(lower_letter(id[i]) || digit(id[i]) || id[i] == '-');
    }
}

proof fn lemma_small_add(a: Seq<char>, b: Seq<char>)
    requires
        small(a),
        small(b),
    ensures
        small(a + b),
{
    let r = a + b;
    assert forall|i: int| 0 <= i < r.len() implies lower_letter(#[trigger] r[i]) || digit(r[i])
        || r[i] == '-' by {
        if i < a.len() {
            assert(r[i] == a[i]);
        } else {
            assert(r[i] == b[i - a.len()]);
        }
    }
}

proof fn lemma_slug_of_ascii(s: Seq<char>)
    requires
        ascii(s),
    ensures
        small(slug(s)),
{
    lemma_lowercase_ascii(s);
    let l = lowercase_text(s);
    assert forall|i: int| 0 <= i < l.len() implies !upper_letter(
        #[trigger] l[i],
    ) by {
        assert(l[i] == lowered_char(s[i]));
    }
    lemma_small_slug(l);
    lemma_small_part(slug_so_far(l), CharClass::Only('-'));
}

} // verus!
