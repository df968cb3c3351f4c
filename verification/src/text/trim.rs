//! Removing characters of a class from the ends of a text.
use vstd::prelude::*;

use crate::text::chars::{chars_of, is_white, string_of, white};

verus! {

/// Which characters a trimming operation removes.
#[derive(Clone, Copy, Debug)]
pub enum CharClass {
    /// White space.
    White,
    /// One particular character.
    Only(char),
    /// Either of two characters.
    Either(char, char),
}

impl CharClass {
    pub open spec fn has(self, c: char) -> bool {
        match self {
            CharClass::White => white(c),
            CharClass::Only(only) => c == only,
            CharClass::Either(a, b) => c == a || c == b,
        }
    }

    pub fn matches(self, c: char) -> (r: bool)
        ensures
            r == self.has(c),
    {
        match self {
            CharClass::White => is_white(c),
            CharClass::Only(only) => c == only,
            CharClass::Either(a, b) => c == a || c == b,
        }
    }
}

/// The text without its leading characters of the class.
pub open spec fn left_trimmed(s: Seq<char>, class: CharClass) -> Seq<char>
    decreases s.len(),
{
    if s.len() > 0 && class.has(s[0]) {
        left_trimmed(s.drop_first(), class)
    } else {
        s
    }
}

/// The text without its trailing characters of the class.
pub open spec fn right_trimmed(s: Seq<char>, class: CharClass) -> Seq<char>
    decreases s.len(),
{
    if s.len() > 0 && class.has(s.last()) {
        right_trimmed(s.drop_last(), class)
    } else {
        s
    }
}

/// The text without its leading and trailing characters of the class.
pub open spec fn both_trimmed(s: Seq<char>, class: CharClass) -> Seq<char> {
    right_trimmed(left_trimmed(s, class), class)
}

/// The text without its leading and trailing white space.
pub open spec fn trimmed(s: Seq<char>) -> Seq<char> {
    both_trimmed(s, CharClass::White)
}

/// Whether the text holds nothing but white space.
pub open spec fn blank(s: Seq<char>) -> bool {
    trimmed(s).len() == 0
}

pub fn trim_start_of(s: &str, class: CharClass) -> (r: String)
    ensures
        r@ == left_trimmed(s@, class),
{
    let v = chars_of(s);
    let mut i: usize = 0;
    assert(v@.skip(0) == s@);
    while i < v.len() && class.matches(v[i])
        invariant
            i <= v@.len(),
            left_trimmed(s@, class) == left_trimmed(v@.skip(i as int), class),
        decreases v@.len() - i,
    {
        assert(v@.skip(i as int).drop_first() == v@.skip(i as int + 1));
        i += 1;
    }
    assert(v@.subrange(i as int, v@.len() as int) == v@.skip(i as int));
    string_of(&v, i, v.len())
}

pub fn trim_end_of(s: &str, class: CharClass) -> (r: String)
    ensures
        r@ == right_trimmed(s@, class),
{
    let v = chars_of(s);
    let mut n: usize = v.len();
    assert(v@.take(n as int) == s@);
    while n > 0 && class.matches(v[n - 1])
        invariant
            n <= v@.len(),
            right_trimmed(s@, class) == right_trimmed(v@.take(n as int), class),
        decreases n,
    {
        assert(v@.take(n as int).drop_last() == v@.take(n as int - 1));
        n -= 1;
    }
    assert(v@.subrange(0, n as int) == v@.take(n as int));
    string_of(&v, 0, n)
}

pub fn trim_of(s: &str, class: CharClass) -> (r: String)
    ensures
        r@ == both_trimmed(s@, class),
{
    let left = trim_start_of(s, class);
    trim_end_of(left.as_str(), class)
}

pub fn trim(s: &str) -> (r: String)
    ensures
        r@ == trimmed(s@),
{
    trim_of(s, CharClass::White)
}

pub fn is_blank(s: &str) -> (r: bool)
    ensures
        r == blank(s@),
{
    trim(s).as_str().is_empty()
}

/// Trimming leaves no character of the class at the start.
pub proof fn lemma_left_trimmed(s: Seq<char>, class: CharClass)
    ensures
        left_trimmed(s, class).len() <= s.len(),
        left_trimmed(s, class) == s.skip(s.len() - left_trimmed(s, class).len()),
        left_trimmed(s, class).len() > 0 ==> !class.has(left_trimmed(s, class)[0]),
        forall|i: int|
            0 <= i < s.len() - left_trimmed(s, class).len() ==> class.has(#[trigger] s[i]),
    decreases s.len(),
{
    if s.len() > 0 && class.has(s[0]) {
        lemma_left_trimmed(s.drop_first(), class);
        let t = left_trimmed(s, class);
        assert(s.drop_first().skip(s.len() - 1 - t.len()) == s.skip(s.len() - t.len()));
        assert forall|i: int| 0 <= i < s.len() - t.len() implies class.has(#[trigger] s[i]) by {
            if i > 0 {
                assert(s.drop_first()[i - 1] == s[i]);
            }
        }
    } else {
        assert(s.skip(0) == s);
    }
}

/// Trimming leaves no character of the class at the end.
pub proof fn lemma_right_trimmed(s: Seq<char>, class: CharClass)
    ensures
        right_trimmed(s, class).len() <= s.len(),
        right_trimmed(s, class) == s.take(right_trimmed(s, class).len() as int),
        right_trimmed(s, class).len() > 0 ==> !class.has(right_trimmed(s, class).last()),
        forall|i: int| right_trimmed(s, class).len() <= i < s.len() ==> class.has(#[trigger] s[i]),
    decreases s.len(),
{
    if s.len() > 0 && class.has(s.last()) {
        lemma_right_trimmed(s.drop_last(), class);
        let t = right_trimmed(s, class);
        assert(s.drop_last().take(t.len() as int) == s.take(t.len() as int));
        assert forall|i: int| t.len() <= i < s.len() implies class.has(#[trigger] s[i]) by {
            if i < s.len() - 1 {
                assert(s.drop_last()[i] == s[i]);
            }
        }
    } else {
        assert(s.take(s.len() as int) == s);
    }
}

/// Trimming twice is trimming once.
pub proof fn trimming_is_idempotent(s: Seq<char>, class: CharClass)
    ensures
        both_trimmed(both_trimmed(s, class), class) == both_trimmed(s, class),
{
    let left = left_trimmed(s, class);
    let both = both_trimmed(s, class);
    lemma_left_trimmed(s, class);
    lemma_right_trimmed(left, class);
    if both.len() > 0 {
        assert(both[0] == left[0]);
    }
}

/// A text is blank exactly when every one of its characters is white space.
pub proof fn blank_means_all_white(s: Seq<char>)
    ensures
        blank(s) <==> (forall|i: int| 0 <= i < s.len() ==> white(#[trigger] s[i])),
{
    let left = left_trimmed(s, CharClass::White);
    lemma_left_trimmed(s, CharClass::White);
    lemma_right_trimmed(left, CharClass::White);
    if left.len() > 0 {
        assert(left[0] == s[s.len() - left.len()]);
        if blank(s) {
            assert(CharClass::White.has(left[0]));
        }
    } else {
        assert forall|i: int| 0 <= i < s.len() implies white(#[trigger] s[i]) by {
            assert(CharClass::White.has(s[i]));
        }
    }
}

} // verus!
