//! What the operations on texts do, told from the texts alone.
use vstd::prelude::*;

use crate::text::chars::{alphanumeric, control, digit, letter, lowered, uppered, white};
use crate::text::compose::{joined, replaced};
use crate::text::number::{decimal, hex_bytes, hex_digits, parsed, signed_decimal};
use crate::text::order::before;
use crate::text::pieces::{lines_of, pieces, words_of};
use crate::text::search::{cut_last, cut_once, last_of, lemma_first_of, lemma_last_of};
use crate::text::trim::{left_trimmed, right_trimmed, trimmed, CharClass};

verus! {

/// Whether a text is nothing but white space.
pub open spec fn all_white(s: Seq<char>) -> bool {
    forall|i: int| 0 <= i < s.len() ==> white(#[trigger] s[i])
}

/// White space are the blank, the tab, the ends of lines and pages, and the further characters
/// that Unicode counts among it.
pub proof fn white_space_is_that_of_unicode(c: char)
    ensures
        white(c) <==> {
            let u = c as u32;
            u == 9 || u == 10 || u == 11 || u == 12 || u == 13 || u == 32 || u == 133 || u == 160
                || u == 5760 || (8192 <= u && u <= 8202) || u == 8232 || u == 8233 || u == 8239
                || u == 8287 || u == 12288
        },
        control(c) <==> (c as u32) < 32 || (127 <= (c as u32) && (c as u32) < 160),
        digit(c) <==> 48 <= (c as u32) && (c as u32) <= 57,
        letter(c) <==> (65 <= (c as u32) && (c as u32) <= 90) || (97 <= (c as u32) && (c as u32)
            <= 122),
        alphanumeric(c) <==> letter(c) || digit(c),
{
}

/// Small letters and capitals are changed into each other, and nothing else is.
pub proof fn only_letters_change_their_case(s: Seq<char>, i: int)
    requires
        0 <= i < s.len(),
    ensures
        lowered(s).len() == s.len(),
        uppered(s).len() == s.len(),
        65 <= (s[i] as u32) <= 90 ==> lowered(s)[i] as u32 == s[i] as u32 + 32,
        !(65 <= (s[i] as u32) <= 90) ==> lowered(s)[i] == s[i],
        97 <= (s[i] as u32) <= 122 ==> uppered(s)[i] as u32 == s[i] as u32 - 32,
        !(97 <= (s[i] as u32) <= 122) ==> uppered(s)[i] == s[i],
{
}

/// Trimming takes white space off both ends, all of it, and nothing else.
pub proof fn trimming_takes_white_space_alone(a: Seq<char>, s: Seq<char>, b: Seq<char>)
    requires
        all_white(a),
        all_white(b),
        s.len() > 0 ==> !white(s[0]) && !white(s.last()),
    ensures
        trimmed(a + s + b) == s,
{
    lemma_left(a, s + b);
    assert(a + s + b =~= a + (s + b));
    if s.len() > 0 {
        assert((s + b)[0] == s[0]);
        lemma_right(s, b);
    } else {
        assert(s + b =~= b);
        lemma_left(b, s);
        assert(b + s =~= b);
    }
}

proof fn lemma_left(a: Seq<char>, s: Seq<char>)
    requires
        all_white(a),
    ensures
        left_trimmed(a + s, CharClass::White) == left_trimmed(s, CharClass::White),
    decreases a.len(),
{
    if a.len() > 0 {
        let rest = a.drop_first();
        assert forall|i: int| 0 <= i < rest.len() implies white(#[trigger] rest[i]) by {
            assert(rest[i] == a[i + 1]);
        }
        lemma_left(rest, s);
        assert(white(a[0]));
        assert((a + s).drop_first() =~= rest + s);
    } else {
        assert(a + s =~= s);
    }
}

proof fn lemma_right(s: Seq<char>, b: Seq<char>)
    requires
        all_white(b),
        s.len() > 0,
        !white(s.last()),
    ensures
        right_trimmed(s + b, CharClass::White) == s,
    decreases b.len(),
{
    if b.len() > 0 {
        let rest = b.drop_last();
        assert forall|i: int| 0 <= i < rest.len() implies white(#[trigger] rest[i]) by {
            assert(rest[i] == b[i]);
        }
        assert(white(b[b.len() - 1]));
        assert((s + b).drop_last() =~= s + rest);
        lemma_right(s, rest);
    } else {
        assert(s + b =~= s);
    }
}

/// A text that is cut at a character is the pieces with that character between them.
pub proof fn joining_undoes_cutting(s: Seq<char>, c: char)
    ensures
        joined(pieces(s, c), seq![c]) == s,
    decreases s.len(),
{
    crate::text::pieces::lemma_pieces_nonempty(s, c);
    if s.len() > 0 {
        let rest = s.drop_last();
        let before = pieces(rest, c);
        joining_undoes_cutting(rest, c);
        crate::text::pieces::lemma_pieces_nonempty(rest, c);
        if s.last() == c {
            let now = before.push(seq![]);
            assert(now.drop_last() =~= before);
            assert(joined(now, seq![c]) =~= rest + seq![c]);
        } else {
            let now = before.drop_last().push(before.last().push(s.last()));
            assert(now.drop_last() =~= before.drop_last());
            if before.len() == 1 {
                assert(now[0] =~= rest.push(s.last()));
            } else {
                assert(joined(now, seq![c]) =~= rest.push(s.last()));
            }
        }
        assert(rest.push(s.last()) =~= s);
    }
}

/// Cutting a text with a separator gives the pieces before it and the pieces behind it.
pub proof fn separators_part_the_pieces(a: Seq<char>, b: Seq<char>, c: char)
    ensures
        pieces(a + seq![c] + b, c) == pieces(a, c) + pieces(b, c),
    decreases b.len(),
{
    let whole = a + seq![c] + b;
    crate::text::pieces::lemma_pieces_nonempty(a, c);
    if b.len() == 0 {
        assert(whole.drop_last() =~= a);
        assert(pieces(b, c) =~= seq![Seq::<char>::empty()]);
        assert(pieces(whole, c) =~= pieces(a, c) + pieces(b, c));
    } else {
        let rest = b.drop_last();
        separators_part_the_pieces(a, rest, c);
        crate::text::pieces::lemma_pieces_nonempty(rest, c);
        assert(whole.drop_last() =~= a + seq![c] + rest);
        let left = pieces(a, c);
        let right = pieces(rest, c);
        assert((left + right).last() == right.last());
        assert((left + right).drop_last() =~= left + right.drop_last());
        assert(pieces(whole, c) =~= pieces(a, c) + pieces(b, c));
    }
}

/// A text without a separator is one piece.
pub proof fn a_text_without_a_separator_is_one_piece(s: Seq<char>, c: char)
    requires
        !s.contains(c),
    ensures
        pieces(s, c) == seq![s],
    decreases s.len(),
{
    if s.len() > 0 {
        let rest = s.drop_last();
        assert(s[s.len() - 1] == s.last());
        assert(!rest.contains(c)) by {
            if rest.contains(c) {
                let i = choose|i: int| 0 <= i < rest.len() && rest[i] == c;
                assert(s[i] == c);
            }
        }
        a_text_without_a_separator_is_one_piece(rest, c);
        assert(rest.push(s.last()) =~= s);
        assert(pieces(s, c) =~= seq![s]);
    } else {
        assert(s =~= Seq::<char>::empty());
        assert(pieces(s, c) =~= seq![s]);
    }
}

/// A line ends at a line feed, and a carriage return before it is no part of the line; the
/// lines behind it follow.
pub proof fn line_feeds_end_lines(a: Seq<char>, b: Seq<char>)
    requires
        !a.contains('\n'),
        a.len() > 0 ==> a.last() != '\r',
    ensures
        lines_of(a + seq!['\n'] + b) == seq![a] + lines_of(b),
        lines_of(a + seq!['\r'] + seq!['\n'] + b) == seq![a] + lines_of(b),
        a.len() > 0 ==> lines_of(a) == seq![a],
        lines_of(Seq::empty()).len() == 0,
{
    crate::text::pieces::lemma_pieces_nonempty(b, '\n');
    separators_part_the_pieces(a, b, '\n');
    a_text_without_a_separator_is_one_piece(a, '\n');
    assert(lines_of(a + seq!['\n'] + b) =~= seq![a] + lines_of(b));
    let r = a + seq!['\r'];
    assert(!r.contains('\n')) by {
        if r.contains('\n') {
            let i = choose|i: int| 0 <= i < r.len() && r[i] == '\n';
            assert(a[i] == '\n');
        }
    }
    separators_part_the_pieces(r, b, '\n');
    a_text_without_a_separator_is_one_piece(r, '\n');
    assert(r.drop_last() =~= a);
    assert(lines_of(r + seq!['\n'] + b) =~= seq![a] + lines_of(b));
    if a.len() > 0 {
        assert(lines_of(a) =~= seq![a]);
    }
    a_text_without_a_separator_is_one_piece(Seq::empty(), '\n');
}

/// White space parts words, however much of it there is; a text without any is one word.
pub proof fn white_space_parts_words(a: Seq<char>, w: char, b: Seq<char>)
    requires
        white(w),
    ensures
        words_of(a + seq![w] + b) == words_of(a) + words_of(b),
        a.len() > 0 && (forall|i: int| 0 <= i < a.len() ==> !white(#[trigger] a[i])) ==> words_of(a)
            == seq![a],
    decreases a.len() + b.len(),
{
    let whole = a + seq![w] + b;
    if b.len() == 0 {
        assert(whole.drop_last() =~= a);
        assert(whole.last() == w);
        assert(words_of(whole) =~= words_of(a) + words_of(b));
    } else {
        let rest = b.drop_last();
        white_space_parts_words(a, w, rest);
        assert(whole.drop_last() =~= a + seq![w] + rest);
        assert(whole.last() == b.last());
        if !white(b.last()) {
            if b.len() == 1 {
                assert(whole[whole.len() - 2] == w);
                assert(words_of(rest).len() == 0);
                assert(words_of(whole) =~= words_of(a) + words_of(b));
            } else {
                assert(whole[whole.len() - 2] == b[b.len() - 2]);
                if !white(b[b.len() - 2]) {
                    crate::text::pieces::lemma_words_nonempty(rest);
                    let left = words_of(a);
                    let right = words_of(rest);
                    assert(right.len() > 0);
                    assert((left + right).last() == right.last());
                    assert((left + right).drop_last() =~= left + right.drop_last());
                }
                assert(words_of(whole) =~= words_of(a) + words_of(b));
            }
        }
    }
    if a.len() > 0 && (forall|i: int| 0 <= i < a.len() ==> !white(#[trigger] a[i])) {
        lemma_one_word(a);
    }
}

proof fn lemma_one_word(a: Seq<char>)
    requires
        a.len() > 0,
        forall|i: int| 0 <= i < a.len() ==> !white(#[trigger] a[i]),
    ensures
        words_of(a) == seq![a],
    decreases a.len(),
{
    let rest = a.drop_last();
    assert(!white(a[a.len() - 1]));
    if rest.len() > 0 {
        assert forall|i: int| 0 <= i < rest.len() implies !white(#[trigger] rest[i]) by {
            assert(rest[i] == a[i]);
        }
        lemma_one_word(rest);
        assert(!white(a[a.len() - 2]));
        assert(rest.push(a.last()) =~= a);
    } else {
        assert(a =~= seq![a.last()]);
        assert(words_of(rest).len() == 0);
    }
    assert(words_of(a) =~= seq![a]);
}

/// Replacing works character by character: each one that is meant gives way, and every other
/// stays.
pub proof fn replacing_goes_character_by_character(
    a: Seq<char>,
    b: Seq<char>,
    c: char,
    by: Seq<char>,
)
    ensures
        replaced(a + b, c, by) == replaced(a, c, by) + replaced(b, c, by),
        replaced(seq![c], c, by) == by,
        forall|d: char| d != c ==> #[trigger] replaced(seq![d], c, by) == seq![d],
    decreases b.len(),
{
    reveal_with_fuel(replaced, 2);
    assert(seq![c].drop_last() =~= Seq::<char>::empty());
    assert(replaced(seq![c], c, by) =~= by);
    assert forall|d: char| d != c implies #[trigger] replaced(seq![d], c, by) == seq![d] by {
        assert(seq![d].drop_last() =~= Seq::<char>::empty());
        assert(replaced(seq![d], c, by) =~= seq![d]);
    }
    if b.len() == 0 {
        assert(a + b =~= a);
        assert(replaced(a, c, by) + replaced(b, c, by) =~= replaced(a, c, by));
    } else {
        replacing_goes_character_by_character(a, b.drop_last(), c, by);
        assert((a + b).drop_last() =~= a + b.drop_last());
        assert(replaced(a + b, c, by) =~= replaced(a, c, by) + replaced(b, c, by));
    }
}

/// A number is written with its last digit last, behind the digits of what is left of it.
pub proof fn numbers_are_written_digit_by_digit(n: nat, d: nat)
    requires
        d < 10,
    ensures
        decimal(d).len() == 1 && decimal(d)[0] as u32 == d + 48,
        n > 0 ==> decimal(n * 10 + d) == decimal(n) + decimal(d),
        n > 0 ==> signed_decimal(-(n as int)) == seq!['-'] + decimal(n),
        signed_decimal(n as int) == decimal(n),
{
    let x = (d + 48) as u8;
    assert(x == d + 48);
    assert(x as char as u32 == x as u32);
    if n > 0 {
        assert((n * 10 + d) / 10 == n) by (nonlinear_arith)
            requires
                d < 10,
        ;
        assert((n * 10 + d) % 10 == d) by (nonlinear_arith)
            requires
                d < 10,
        ;
        assert(decimal(n).push(crate::text::number::digit_char(d)) =~= decimal(n) + decimal(d));
    }
}

/// A text is read as a number where it is one, with or without a plus sign, and no larger than
/// allowed.
pub proof fn numbers_are_read_up_to_the_limit(n: nat, max: nat, s: Seq<char>, i: int)
    ensures
        n <= max ==> parsed(decimal(n), max) == Some(n),
        n <= max ==> parsed(seq!['+'] + decimal(n), max) == Some(n),
        n > max ==> parsed(decimal(n), max) is None,
        s.len() == 0 ==> parsed(s, max) is None,
        0 < i < s.len() && !digit(s[i]) ==> parsed(s, max) is None,
        s.len() > 0 && !digit(s[0]) && s[0] != '+' ==> parsed(s, max) is None,
{
    crate::text::number::parsing_undoes_showing(n, n + max);
    crate::text::number::parsing_undoes_showing(n, n);
    lemma_first_digit(n);
    assert((seq!['+'] + decimal(n)).drop_first() =~= decimal(n));
    if 0 < i < s.len() && !digit(s[i]) {
        if s[0] == '+' {
            assert(s.drop_first()[i - 1] == s[i]);
        }
    }
}

proof fn lemma_first_digit(n: nat)
    ensures
        decimal(n).len() > 0,
        digit(decimal(n)[0]),
    decreases n,
{
    if n >= 10 {
        lemma_first_digit(n / 10);
    } else {
        let x = (n + 48) as u8;
        assert(x == n + 48);
    }
}

/// Bytes are written with two digits each, in order.
pub proof fn bytes_are_written_with_two_digits(a: Seq<u8>, b: u8)
    ensures
        hex_bytes(a.push(b)) == hex_bytes(a) + hex_digits(b as nat, 2),
        hex_bytes(a).len() == 2 * a.len(),
        hex_digits(b as nat, 2).len() == 2,
        hex_digits(b as nat, 2)[1] == crate::text::number::digit_char((b % 16) as nat),
        hex_digits(b as nat, 2)[0] == crate::text::number::digit_char((b / 16) as nat),
    decreases a.len(),
{
    reveal_with_fuel(hex_digits, 3);
    assert(a.push(b).drop_last() =~= a);
    if a.len() > 0 {
        bytes_are_written_with_two_digits(a.drop_last(), a.last());
    }
}

/// A text is cut once at the first separator, and from the end at the last one.
pub proof fn texts_are_cut_at_their_separator(a: Seq<char>, c: char, b: Seq<char>)
    ensures
        !a.contains(c) ==> cut_once(a + seq![c] + b, c) == Some((a, b)),
        !b.contains(c) ==> cut_last(a + seq![c] + b, c) == Some((a, b)),
        !a.contains(c) ==> cut_once(a, c) is None && cut_last(a, c) is None,
{
    let s = a + seq![c] + b;
    let n = a.len() as int;
    assert(s[n] == c);
    assert(s.take(n) =~= a);
    assert(s.skip(n + 1) =~= b);
    lemma_first_of(s, c);
    lemma_last_of(s, c);
    lemma_first_of(a, c);
    lemma_last_of(a, c);
    if !a.contains(c) {
        assert forall|i: int| 0 <= i < n implies s[i] != c by {
            assert(s[i] == a[i]);
        }
        if last_of(a, c) >= 0 {
            assert(a[last_of(a, c)] == c);
        }
    }
    if !b.contains(c) {
        assert forall|i: int| n < i < s.len() implies s[i] != c by {
            assert(s[i] == b[i - n - 1]);
        }
    }
}

/// Texts are ordered by the first character in which they differ, and a beginning comes
/// before what it is the beginning of.
pub proof fn the_first_difference_decides(p: Seq<char>, x: char, a: Seq<char>, y: char, b: Seq<char>)
    ensures
        x != y ==> (before(p + seq![x] + a, p + seq![y] + b) <==> (x as u32) < (y as u32)),
        before(p, p + seq![x] + a),
        !before(p, p),
    decreases p.len(),
{
    let s = p + seq![x] + a;
    let t = p + seq![y] + b;
    if p.len() > 0 {
        let q = p.drop_first();
        the_first_difference_decides(q, x, a, y, b);
        assert(s.drop_first() =~= q + seq![x] + a);
        assert(t.drop_first() =~= q + seq![y] + b);
        assert(s[0] == p[0] && t[0] == p[0]);
    } else {
        assert(s[0] == x && t[0] == y);
    }
}

} // verus!
