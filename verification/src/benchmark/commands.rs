//! Commands as they are archived: written so that a shell reads them back, and without
//! the secrets that they were given.
use vstd::prelude::*;

use crate::failure::Failure;
use crate::json::{member, views, Json, JsonView};
use crate::text::chars::{
    alphanumeric, chars_of, is_alphanumeric, is_white, lowered, text_eq, to_lower, white,
};
use crate::text::compose::{join, joined, no_texts, put, replace, replaced, texts};
use crate::text::pieces::{words, words_of};
use crate::text::search::{
    contains, cut_once, ends_with, first_of, has_char, has_suffix, has_text, lemma_first_of,
    occurs_at, split_once,
};
use crate::text::trim::{
    both_trimmed, left_trimmed, right_trimmed, trim_of, trim_start_of, CharClass,
};

verus! {

/// What stands in the place of a secret.
pub open spec fn redaction() -> Seq<char> {
    "<redacted>"@
}

/// A name of an option or a variable, without its leading hyphens, in small letters and
/// with underscores.
pub open spec fn plain_name_of(value: Seq<char>) -> Seq<char> {
    replaced(lowered(left_trimmed(value, CharClass::Only('-'))), '-', "_"@)
}

/// Whether a name is that of a secret.
pub open spec fn secret_name(value: Seq<char>) -> bool {
    let name = plain_name_of(value);
    ||| contains(name, "api_key"@)
    ||| name == "token"@
    ||| ends_with(name, "_token"@)
    ||| contains(name, "password"@)
    ||| contains(name, "secret"@)
}

/// Whether a value gives no secret away: it was redacted, or it refers to a variable.
pub open spec fn redacted_reference(value: Seq<char>) -> bool {
    let inner = both_trimmed(value, CharClass::Either('\'', '"'));
    inner == redaction() || (inner.len() > 0 && (inner[0] == '$' || inner[0] == '%'))
}

/// Whether the token at a place gives a secret away: as the value behind its equals
/// sign, or as the token that follows it.
pub open spec fn exposes(tokens: Seq<Seq<char>>, i: int) -> bool {
    match cut_once(tokens[i], '=') {
        Some((key, value)) => secret_name(key) && !redacted_reference(value),
        None => secret_name(tokens[i]) && i + 1 < tokens.len() && !redacted_reference(
            tokens[i + 1],
        ),
    }
}

/// Whether some token gives a secret away.
pub open spec fn exposes_any(tokens: Seq<Seq<char>>) -> bool {
    exists|i: int| 0 <= i < tokens.len() && #[trigger] exposes(tokens, i)
}

/// Whether a name is that of a secret.
pub fn is_secret_name(value: &str) -> (r: bool)
    ensures
        r == secret_name(value@),
{
    let bare = trim_start_of(value, CharClass::Only('-'));
    let name = replace(to_lower(bare.as_str()).as_str(), '-', "_");
    has_text(name.as_str(), "api_key") || text_eq(name.as_str(), "token") || has_suffix(
        name.as_str(),
        "_token",
    ) || has_text(name.as_str(), "password") || has_text(name.as_str(), "secret")
}

/// Whether a value gives no secret away.
pub fn is_redacted_reference(value: &str) -> (r: bool)
    ensures
        r == redacted_reference(value@),
{
    let inner = trim_of(value, CharClass::Either('\'', '"'));
    let v = chars_of(inner.as_str());
    text_eq(inner.as_str(), "<redacted>") || (v.len() > 0 && (v[0] == '$' || v[0] == '%'))
}

/// Whether a command gives a secret away.
pub fn contains_unredacted_secret(command: &str) -> (r: bool)
    ensures
        r == exposes_any(words_of(command@)),
{
    let tokens = words(command);
    let ghost all = words_of(command@);
    let mut i: usize = 0;
    while i < tokens.len()
        invariant
            i <= tokens@.len(),
            all == texts(tokens@),
            all == words_of(command@),
            forall|j: int| 0 <= j < i ==> !#[trigger] exposes(all, j),
        decreases tokens@.len() - i,
    {
        assert(all[i as int] == tokens@[i as int]@);
        let exposed = match split_once(tokens[i].as_str(), '=') {
            Some((key, value)) => is_secret_name(key.as_str()) && !is_redacted_reference(
                value.as_str(),
            ),
            None => is_secret_name(tokens[i].as_str()) && i + 1 < tokens.len()
                && !is_redacted_reference(tokens[i + 1].as_str()),
        };
        assert(i + 1 < tokens@.len() ==> all[i as int + 1] == tokens@[i as int + 1]@);
        assert(exposed == exposes(all, i as int));
        if exposed {
            return true;
        }
        i += 1;
    }
    false
}

/// What stands before the equals sign of a text that has one.
pub open spec fn key_part(s: Seq<char>) -> Seq<char> {
    match cut_once(s, '=') {
        Some((key, _)) => key,
        None => seq![],
    }
}

/// Whether an argument stands for a secret that the next argument gives.
pub open spec fn asks_for_secret(arg: Seq<char>) -> bool {
    cut_once(arg, '=') is None && secret_name(arg)
}

/// Whether the argument at a place is replaced: the one before it stands for a secret
/// and is not itself replaced.
pub open spec fn is_replaced(args: Seq<Seq<char>>, i: int) -> bool
    decreases i,
{
    if i <= 0 {
        false
    } else {
        !is_replaced(args, i - 1) && asks_for_secret(args[i - 1])
    }
}

/// An argument without the secret that it gives.
pub open spec fn without_secret(arg: Seq<char>) -> Seq<char> {
    match cut_once(arg, '=') {
        Some((key, _)) => if secret_name(key) {
            key + "="@ + redaction()
        } else {
            arg
        },
        None => arg,
    }
}

/// The arguments without the secrets that they give.
pub open spec fn redacted(args: Seq<Seq<char>>) -> Seq<Seq<char>> {
    Seq::new(
        args.len(),
        |i: int|
            if is_replaced(args, i) {
                redaction()
            } else {
                without_secret(args[i])
            },
    )
}

/// The arguments without the secrets that they give.
pub fn redact_command_args(args: &Vec<String>) -> (r: Vec<String>)
    ensures
        texts(r@) == redacted(texts(args@)),
{
    let ghost all = texts(args@);
    let mut r = no_texts();
    let mut redact_next = false;
    let mut i: usize = 0;
    assert(texts(r@) =~= redacted(all).take(0));
    while i < args.len()
        invariant
            i <= args@.len(),
            all == texts(args@),
            redact_next == is_replaced(all, i as int),
            texts(r@) == redacted(all).take(i as int),
        decreases args@.len() - i,
    {
        let argument = args[i].as_str();
        assert(all[i as int] == argument@);
        if redact_next {
            put(&mut r, "<redacted>");
            redact_next = false;
        } else {
            match split_once(argument, '=') {
                Some((key, _)) => {
                    if is_secret_name(key.as_str()) {
                        put(&mut r, key.concat("=").concat("<redacted>").as_str());
                    } else {
                        put(&mut r, argument);
                    }
                },
                None => {
                    redact_next = is_secret_name(argument);
                    put(&mut r, argument);
                },
            }
        }
        assert(texts(r@) =~= redacted(all).take(i as int + 1));
        i += 1;
    }
    assert(texts(r@) =~= redacted(all));
    r
}

proof fn lemma_contains_head(s: Seq<char>, part: Seq<char>)
    requires
        part.len() > 0,
        !s.contains(part[0]),
    ensures
        !contains(s, part),
        !ends_with(s, part),
{
    assert forall|at: int| !occurs_at(s, part, at) by {
        if occurs_at(s, part, at) {
            assert(s.subrange(at, at + part.len())[0] == part[0]);
            assert(s[at] == part[0]);
        }
    }
}

proof fn lemma_replaced_none(s: Seq<char>, c: char, by: Seq<char>)
    requires
        !s.contains(c),
    ensures
        replaced(s, c, by) == s,
    decreases s.len(),
{
    if s.len() > 0 {
        let rest = s.drop_last();
        assert(s[s.len() - 1] != c);
        assert(!rest.contains(c)) by {
            if rest.contains(c) {
                let i = choose|i: int| 0 <= i < rest.len() && rest[i] == c;
                assert(s[i] == c);
            }
        }
        lemma_replaced_none(rest, c, by);
        assert(rest + seq![s.last()] =~= s);
    } else {
        assert(replaced(s, c, by) =~= s);
    }
}

/// The mark that stands for a secret names none itself and gives none away.
proof fn lemma_redaction()
    ensures
        cut_once(redaction(), '=') is None,
        !secret_name(redaction()),
        redacted_reference(redaction()),
{
    reveal_strlit("<redacted>");
    let s = redaction();
    assert(s.len() == 10);
    assert(s =~= seq!['<', 'r', 'e', 'd', 'a', 'c', 't', 'e', 'd', '>']);
    lemma_first_of(s, '=');
    assert(left_trimmed(s, CharClass::Only('-')) == s);
    assert(lowered(s) =~= s);
    lemma_replaced_none(s, '-', "_"@);
    reveal_strlit("api_key");
    reveal_strlit("token");
    reveal_strlit("_token");
    reveal_strlit("password");
    reveal_strlit("secret");
    lemma_contains_head(s, "password"@);
    lemma_contains_head(s, "secret"@);
    lemma_contains_head(s, "_token"@);
    assert("api_key"@[1] == 'p');
    assert(!contains(s, "api_key"@)) by {
        assert forall|at: int| !occurs_at(s, "api_key"@, at) by {
            if occurs_at(s, "api_key"@, at) {
                assert(s.subrange(at, at + 7)[1] == 'p');
                assert(s[at + 1] == 'p');
            }
        }
    }
    assert(left_trimmed(s, CharClass::Either('\'', '"')) == s);
    assert(right_trimmed(s, CharClass::Either('\'', '"')) == s);
}

proof fn lemma_cut_joined(key: Seq<char>, value: Seq<char>)
    requires
        !key.contains('='),
    ensures
        cut_once(key + "="@ + value, '=') == Some((key, value)),
{
    reveal_strlit("=");
    let s = key + "="@ + value;
    lemma_first_of(s, '=');
    let i = first_of(s, '=');
    assert(s[key.len() as int] == '=');
    if i < key.len() {
        assert(s[i] == key[i]);
        assert(key.contains('='));
    }
    assert(i == key.len());
    assert(s.take(i) =~= key);
    assert(s.skip(i + 1) =~= value);
}

proof fn lemma_cut_key(s: Seq<char>)
    requires
        cut_once(s, '=') is Some,
    ensures
        !key_part(s).contains('='),
{
    lemma_first_of(s, '=');
}

/// Redacted arguments give no secret away, whatever the arguments were.
pub proof fn redacted_arguments_expose_nothing(args: Seq<Seq<char>>)
    ensures
        !exposes_any(redacted(args)),
        redacted(args).len() == args.len(),
{
    let out = redacted(args);
    lemma_redaction();
    assert forall|i: int| 0 <= i < out.len() implies !#[trigger] exposes(out, i) by {
        if !is_replaced(args, i) {
            match cut_once(args[i], '=') {
                Some((key, _)) => {
                    if secret_name(key) {
                        lemma_cut_key(args[i]);
                        lemma_cut_joined(key, redaction());
                    }
                },
                None => {
                    if secret_name(args[i]) && i + 1 < out.len() {
                        assert(is_replaced(args, i + 1));
                    }
                },
            }
        }
    }
}

proof fn lemma_replaced_places(args: Seq<Seq<char>>, i: int)
    requires
        0 <= i < args.len(),
    ensures
        is_replaced(redacted(args), i) == is_replaced(args, i),
    decreases i,
{
    if i > 0 {
        lemma_replaced_places(args, i - 1);
        lemma_redaction();
        let arg = args[i - 1];
        if !is_replaced(args, i - 1) {
            match cut_once(arg, '=') {
                Some((key, _)) => {
                    if secret_name(key) {
                        lemma_cut_key(arg);
                        lemma_cut_joined(key, redaction());
                    }
                },
                None => {},
            }
        }
    }
}

/// Redacting what is redacted changes nothing.
pub proof fn redacting_twice_changes_nothing(args: Seq<Seq<char>>)
    ensures
        redacted(redacted(args)) == redacted(args),
{
    let out = redacted(args);
    lemma_redaction();
    assert forall|i: int| 0 <= i < out.len() implies redacted(out)[i] == out[i] by {
        lemma_replaced_places(args, i);
        if !is_replaced(args, i) {
            match cut_once(args[i], '=') {
                Some((key, _)) => {
                    if secret_name(key) {
                        lemma_cut_key(args[i]);
                        lemma_cut_joined(key, redaction());
                    }
                },
                None => {},
            }
        }
    }
    assert(redacted(out) =~= out);
}

/// An argument that is neither a secret nor follows the name of one stays as it is.
pub proof fn other_arguments_stay(args: Seq<Seq<char>>, i: int)
    requires
        0 <= i < args.len(),
        !is_replaced(args, i),
        cut_once(args[i], '=') is None || !secret_name(key_part(args[i])),
    ensures
        redacted(args)[i] == args[i],
{
}

/// The texts in an array under a key; a value among them that is no text is an error.
pub open spec fn all_texts(v: JsonView, key: Seq<char>) -> Result<Seq<Seq<char>>, Seq<char>> {
    match member(v, key) {
        Some(JsonView::Array(items)) => if forall|i: int|
            0 <= i < items.len() ==> (#[trigger] items[i]) is Text {
            Ok(Seq::new(items.len(), |i: int| items[i]->Text_0))
        } else {
            Err("OmniInfer state field "@ + key + " is not a string array."@)
        },
        _ => Ok(seq![]),
    }
}

/// The texts in an array of the gateway's state.
pub fn command_array(state: &Json, key: &str) -> (r: Result<Vec<String>, Failure>)
    ensures
        match r {
            Ok(v) => all_texts(state@, key@) == Ok::<Seq<Seq<char>>, Seq<char>>(texts(v@)),
            Err(e) => all_texts(state@, key@) == Err::<Seq<Seq<char>>, Seq<char>>(e@),
        },
{
    let mut v = no_texts();
    match state.get(key) {
        Some(Json::Array(items)) => {
            let ghost all = views(items@);
            proof {
                crate::json::lemma_array_view(*items);
            }
            let mut i: usize = 0;
            while i < items.len()
                invariant
                    i <= items@.len(),
                    all == views(items@),
                    member(state@, key@) == Some(JsonView::Array(all)),
                    texts(v@).len() == i,
                    forall|j: int|
                        0 <= j < i ==> (#[trigger] all[j]) is Text && all[j]->Text_0 == texts(
                            v@,
                        )[j],
                decreases items@.len() - i,
            {
                assert(all[i as int] == items@[i as int]@);
                match &items[i] {
                    Json::Text(s) => {
                        put(&mut v, s.as_str());
                    },
                    _ => {
                        assert(!(all[i as int] is Text));
                        return Err(
                            Failure::of(
                                "OmniInfer state field ",
                                key,
                                " is not a string array.",
                            ),
                        );
                    },
                }
                i += 1;
            }
            assert(texts(v@) =~= Seq::new(all.len(), |i: int| all[i]->Text_0));
        },
        _ => {
            assert(texts(v@) =~= Seq::<Seq<char>>::empty());
        },
    }
    Ok(v)
}

/// A character that a POSIX shell takes as it is.
pub open spec fn shell_safe(c: char) -> bool {
    alphanumeric(c) || "_@%+=:,./-"@.contains(c)
}

/// An argument as it is written in a command.
pub open spec fn quoted(argument: Seq<char>, windows: bool) -> Seq<char> {
    if windows {
        if argument.len() > 0 && forall|i: int|
            0 <= i < argument.len() ==> !white(#[trigger] argument[i]) && argument[i] != '"' {
            argument
        } else {
            "\""@ + replaced(argument, '"', "\\\""@) + "\""@
        }
    } else if argument.len() > 0 && forall|i: int|
        0 <= i < argument.len() ==> shell_safe(#[trigger] argument[i]) {
        argument
    } else {
        "'"@ + replaced(argument, '\'', "'\"'\"'"@) + "'"@
    }
}

/// An argument as it is written in a command: on Windows where `windows` holds, and for
/// a POSIX shell elsewhere.
pub fn quote_command_argument(argument: &str, windows: bool) -> (r: String)
    ensures
        r@ == quoted(argument@, windows),
{
    let v = chars_of(argument);
    let mut plain = v.len() > 0;
    let mut i: usize = 0;
    while i < v.len()
        invariant
            i <= v@.len(),
            v@ == argument@,
            windows ==> plain == (v@.len() > 0 && forall|j: int|
                0 <= j < i ==> !white(#[trigger] argument@[j]) && argument@[j] != '"'),
            !windows ==> plain == (v@.len() > 0 && forall|j: int|
                0 <= j < i ==> shell_safe(#[trigger] argument@[j])),
        decreases v@.len() - i,
    {
        let c = v[i];
        assert(c == argument@[i as int]);
        let fine = if windows {
            !is_white(c) && c != '"'
        } else {
            is_alphanumeric(c) || has_char("_@%+=:,./-", c)
        };
        if !fine {
            plain = false;
        }
        i += 1;
    }
    if plain {
        return argument.to_owned();
    }
    if windows {
        "\"".to_owned().concat(replace(argument, '"', "\\\"").as_str()).concat("\"")
    } else {
        "'".to_owned().concat(replace(argument, '\'', "'\"'\"'").as_str()).concat("'")
    }
}

pub open spec fn quoted_all(args: Seq<Seq<char>>, windows: bool) -> Seq<Seq<char>> {
    Seq::new(args.len(), |i: int| quoted(args[i], windows))
}

/// A command as it is written.
pub fn command_text(args: &Vec<String>, windows: bool) -> (r: String)
    ensures
        r@ == joined(quoted_all(texts(args@), windows), " "@),
{
    let ghost all = quoted_all(texts(args@), windows);
    let mut parts = no_texts();
    let mut i: usize = 0;
    assert(texts(parts@) =~= all.take(0));
    while i < args.len()
        invariant
            i <= args@.len(),
            all == quoted_all(texts(args@), windows),
            texts(parts@) == all.take(i as int),
        decreases args@.len() - i,
    {
        put(&mut parts, quote_command_argument(args[i].as_str(), windows).as_str());
        assert(texts(parts@) =~= all.take(i as int + 1));
        i += 1;
    }
    assert(all.take(i as int) =~= all);
    join(&parts, " ")
}

/// A text inside single quotes, as a POSIX shell reads it: what stands between quotes is
/// taken as it is. `inside` is whether the text begins between single quotes, `double`
/// whether it begins between double ones.
pub open spec fn shell_reading(s: Seq<char>, inside: bool, double: bool) -> Seq<char>
    decreases s.len(),
{
    if s.len() == 0 {
        seq![]
    } else if inside {
        if s[0] == '\'' {
            shell_reading(s.drop_first(), false, false)
        } else {
            seq![s[0]] + shell_reading(s.drop_first(), true, false)
        }
    } else if double {
        if s[0] == '"' {
            shell_reading(s.drop_first(), false, false)
        } else {
            seq![s[0]] + shell_reading(s.drop_first(), false, true)
        }
    } else if s[0] == '\'' {
        shell_reading(s.drop_first(), true, false)
    } else if s[0] == '"' {
        shell_reading(s.drop_first(), false, true)
    } else {
        seq![s[0]] + shell_reading(s.drop_first(), false, false)
    }
}

proof fn lemma_replaced_front(s: Seq<char>, c: char, by: Seq<char>)
    requires
        s.len() > 0,
    ensures
        replaced(s, c, by) == (if s[0] == c {
            by
        } else {
            seq![s[0]]
        }) + replaced(s.drop_first(), c, by),
    decreases s.len(),
{
    let head = if s[0] == c {
        by
    } else {
        seq![s[0]]
    };
    if s.len() == 1 {
        assert(s.drop_last() =~= Seq::<char>::empty());
        assert(s.drop_first() =~= Seq::<char>::empty());
        assert(replaced(s.drop_last(), c, by) =~= Seq::<char>::empty());
        assert(replaced(s.drop_first(), c, by) =~= Seq::<char>::empty());
        assert(replaced(s, c, by) =~= head + replaced(s.drop_first(), c, by));
    } else {
        lemma_replaced_front(s.drop_last(), c, by);
        assert(s.drop_last().drop_first() =~= s.drop_first().drop_last());
        assert(s.drop_first().last() == s.last());
        assert(replaced(s, c, by) =~= head + replaced(s.drop_first(), c, by));
    }
}

proof fn lemma_quoted_reading(s: Seq<char>)
    ensures
        shell_reading(replaced(s, '\'', "'\"'\"'"@) + seq!['\''], true, false) == s,
    decreases s.len(),
{
    let by = "'\"'\"'"@;
    reveal_strlit("'\"'\"'");
    assert(by =~= seq!['\'', '"', '\'', '"', '\'']);
    if s.len() == 0 {
        let t = replaced(s, '\'', by) + seq!['\''];
        assert(t =~= seq!['\'']);
        assert(t.drop_first() =~= Seq::<char>::empty());
        assert(shell_reading(t.drop_first(), false, false) =~= s);
    } else {
        let rest = s.drop_first();
        lemma_quoted_reading(rest);
        lemma_replaced_front(s, '\'', by);
        let tail = replaced(rest, '\'', by) + seq!['\''];
        let t = replaced(s, '\'', by) + seq!['\''];
        if s[0] == '\'' {
            assert(t =~= by + tail);
            let t1 = t.drop_first();
            let t2 = t1.drop_first();
            let t3 = t2.drop_first();
            let t4 = t3.drop_first();
            let t5 = t4.drop_first();
            assert(t5 =~= tail);
            assert(t[0] == '\'' && t1[0] == '"' && t2[0] == '\'' && t3[0] == '"' && t4[0] == '\'');
            assert(shell_reading(t4, false, false) == shell_reading(t5, true, false));
            assert(shell_reading(t3, false, true) == shell_reading(t4, false, false));
            assert(shell_reading(t2, false, true) == seq!['\''] + shell_reading(t3, false, true));
            assert(shell_reading(t1, false, false) == shell_reading(t2, false, true));
            assert(shell_reading(t, true, false) == shell_reading(t1, false, false));
        } else {
            assert(t =~= seq![s[0]] + tail);
            assert(t.drop_first() =~= tail);
        }
        assert(seq![s[0]] + rest =~= s);
    }
}

proof fn lemma_safe_reading(s: Seq<char>)
    requires
        forall|i: int| 0 <= i < s.len() ==> shell_safe(#[trigger] s[i]),
    ensures
        shell_reading(s, false, false) == s,
    decreases s.len(),
{
    if s.len() > 0 {
        reveal_strlit("_@%+=:,./-");
        assert(shell_safe(s[0]));
        assert("_@%+=:,./-"@ =~= seq!['_', '@', '%', '+', '=', ':', ',', '.', '/', '-']);
        assert(!"_@%+=:,./-"@.contains('\'') && !"_@%+=:,./-"@.contains('"'));
        let rest = s.drop_first();
        assert forall|i: int| 0 <= i < rest.len() implies shell_safe(#[trigger] rest[i]) by {
            assert(rest[i] == s[i + 1]);
        }
        lemma_safe_reading(rest);
        assert(seq![s[0]] + rest =~= s);
    }
}

/// A POSIX shell reads a quoted argument back as the argument.
pub proof fn a_shell_reads_arguments_back(argument: Seq<char>)
    ensures
        shell_reading(quoted(argument, false), false, false) == argument,
{
    if argument.len() > 0 && forall|i: int|
        0 <= i < argument.len() ==> shell_safe(#[trigger] argument[i]) {
        lemma_safe_reading(argument);
    } else {
        reveal_strlit("'");
        let body = replaced(argument, '\'', "'\"'\"'"@);
        let t = quoted(argument, false);
        assert(t =~= seq!['\''] + (body + seq!['\'']));
        assert(t.drop_first() =~= body + seq!['\'']);
        lemma_quoted_reading(argument);
    }
}

} // verus!
