//! Cutting a text into pieces: at a character, at white space, at line ends.
use vstd::prelude::*;

use crate::text::chars::{chars_of, is_white, string_of, white};
use crate::text::compose::{lemma_texts_push, texts};
use crate::text::trim::{left_trimmed, right_trimmed, trimmed, CharClass};

verus! {

/// The pieces of the text between the `c`s in it; a text without one is one piece.
pub open spec fn pieces(s: Seq<char>, c: char) -> Seq<Seq<char>>
    decreases s.len(),
{
    if s.len() == 0 {
        seq![seq![]]
    } else {
        let before = pieces(s.drop_last(), c);
        if s.last() == c {
            before.push(seq![])
        } else {
            before.drop_last().push(before.last().push(s.last()))
        }
    }
}

/// The maximal runs of characters that are no white space.
pub open spec fn words_of(s: Seq<char>) -> Seq<Seq<char>>
    decreases s.len(),
{
    if s.len() == 0 {
        seq![]
    } else {
        let before = words_of(s.drop_last());
        if white(s.last()) {
            before
        } else if s.len() == 1 || white(s[s.len() - 2]) {
            before.push(seq![s.last()])
        } else {
            before.drop_last().push(before.last().push(s.last()))
        }
    }
}

/// The text without one carriage return at its end.
pub open spec fn without_return(s: Seq<char>) -> Seq<char> {
    if s.len() > 0 && s.last() == '\r' {
        s.drop_last()
    } else {
        s
    }
}

/// The lines of the text. A line ends with a line feed, which a carriage return
/// may precede; what follows the last line feed is a line too unless it is empty.
pub open spec fn lines_of(s: Seq<char>) -> Seq<Seq<char>> {
    let parts = pieces(s, '\n');
    let ended = Seq::new((parts.len() - 1) as nat, |i: int| without_return(parts[i]));
    if parts.last().len() == 0 {
        ended
    } else {
        ended.push(parts.last())
    }
}

pub proof fn lemma_pieces_nonempty(s: Seq<char>, c: char)
    ensures
        pieces(s, c).len() > 0,
    decreases s.len(),
{
    if s.len() > 0 {
        lemma_pieces_nonempty(s.drop_last(), c);
    }
}

pub proof fn lemma_words_nonempty(s: Seq<char>)
    ensures
        s.len() > 0 && !white(s.last()) ==> words_of(s).len() > 0,
    decreases s.len(),
{
    if s.len() > 0 {
        lemma_words_nonempty(s.drop_last());
    }
}

/// No word is empty or holds white space.
pub proof fn words_hold_no_white_space(s: Seq<char>)
    ensures
        forall|i: int|
            0 <= i < words_of(s).len() ==> (#[trigger] words_of(s)[i]).len() > 0,
        forall|i: int, j: int|
            0 <= i < words_of(s).len() && 0 <= j < words_of(s)[i].len() ==> !white(
                #[trigger] words_of(s)[i][j],
            ),
    decreases s.len(),
{
    if s.len() > 0 {
        let start = s.drop_last();
        let before = words_of(start);
        words_hold_no_white_space(start);
        lemma_words_nonempty(start);
        if !white(s.last()) && s.len() > 1 && !white(s[s.len() - 2]) {
            assert(start.last() == s[s.len() - 2]);
            let grown = before.last().push(s.last());
            assert(words_of(s) == before.drop_last().push(grown));
            assert forall|i: int, j: int|
                0 <= i < words_of(s).len() && 0 <= j < words_of(s)[i].len() implies !white(
                #[trigger] words_of(s)[i][j],
            ) by {
                if i == before.len() - 1 && j < before.last().len() {
                    assert(words_of(s)[i][j] == before[i][j]);
                }
            }
        }
    }
}

proof fn lemma_words_without_start(s: Seq<char>)
    requires
        s.len() > 0,
        white(s[0]),
    ensures
        words_of(s.drop_first()) == words_of(s),
    decreases s.len(),
{
    let rest = s.drop_first();
    if s.len() > 1 {
        lemma_words_without_start(s.drop_last());
        assert(s.drop_last().drop_first() =~= rest.drop_last());
        assert(rest.last() == s.last());
        if s.len() > 2 {
            assert(rest[rest.len() - 2] == s[s.len() - 2]);
        }
    } else {
        assert(s.drop_last() =~= rest);
    }
}

proof fn lemma_words_left(s: Seq<char>)
    ensures
        words_of(left_trimmed(s, CharClass::White)) == words_of(s),
    decreases s.len(),
{
    if s.len() > 0 && white(s[0]) {
        lemma_words_without_start(s);
        lemma_words_left(s.drop_first());
    }
}

proof fn lemma_words_right(s: Seq<char>)
    ensures
        words_of(right_trimmed(s, CharClass::White)) == words_of(s),
    decreases s.len(),
{
    if s.len() > 0 && white(s.last()) {
        lemma_words_right(s.drop_last());
    }
}

/// A text has the same words with and without the white space around it.
pub proof fn trimming_keeps_the_words(s: Seq<char>)
    ensures
        words_of(trimmed(s)) == words_of(s),
{
    lemma_words_left(s);
    lemma_words_right(left_trimmed(s, CharClass::White));
}

/// No piece holds the character that the text was cut at.
pub proof fn pieces_hold_no_separator(s: Seq<char>, c: char)
    ensures
        forall|i: int, j: int|
            0 <= i < pieces(s, c).len() && 0 <= j < pieces(s, c)[i].len()
                ==> #[trigger] pieces(s, c)[i][j] != c,
    decreases s.len(),
{
    if s.len() > 0 {
        pieces_hold_no_separator(s.drop_last(), c);
        lemma_pieces_nonempty(s.drop_last(), c);
    }
}

/// The pieces of the text between the `c`s in it.
pub fn split(s: &str, c: char) -> (r: Vec<String>)
    ensures
        texts(r@) == pieces(s@, c),
        r@.len() > 0,
{
    let v = chars_of(s);
    let mut done: Vec<String> = Vec::new();
    let mut from: usize = 0;
    let mut i: usize = 0;
    assert(v@.subrange(0, 0) =~= Seq::<char>::empty());
    assert(texts(done@).push(v@.subrange(0, 0)) =~= pieces(s@.take(0), c));
    while i < v.len()
        invariant
            from <= i <= v@.len(),
            v@ == s@,
            pieces(s@.take(i as int), c) == texts(done@).push(v@.subrange(from as int, i as int)),
        decreases v@.len() - i,
    {
        assert(s@.take(i as int + 1).drop_last() =~= s@.take(i as int));
        if v[i] == c {
            let piece = string_of(&v, from, i);
            proof {
                lemma_texts_push(done@, piece);
            }
            done.push(piece);
            from = i + 1;
            assert(v@.subrange(from as int, i as int + 1) =~= Seq::<char>::empty());
        } else {
            let ghost before = texts(done@).push(v@.subrange(from as int, i as int));
            assert(before.drop_last() =~= texts(done@));
            assert(v@.subrange(from as int, i as int + 1) =~= v@.subrange(
                from as int,
                i as int,
            ).push(v@[i as int]));
        }
        i += 1;
    }
    let piece = string_of(&v, from, v.len());
    proof {
        lemma_texts_push(done@, piece);
    }
    done.push(piece);
    assert(s@.take(i as int) =~= s@);
    done
}

/// The maximal runs of characters that are no white space.
pub fn words(s: &str) -> (r: Vec<String>)
    ensures
        texts(r@) == words_of(s@),
{
    let v = chars_of(s);
    let mut done: Vec<String> = Vec::new();
    let mut from: usize = 0;
    let mut i: usize = 0;
    assert(texts(done@) =~= words_of(s@.take(0)));
    while i < v.len()
        invariant
            from <= i <= v@.len(),
            v@ == s@,
            from == i ==> (i == 0 || white(v@[i - 1])) && texts(done@) == words_of(s@.take(i as int)),
            from < i ==> !white(v@[i - 1]) && words_of(s@.take(i as int)) == texts(done@).push(
                v@.subrange(from as int, i as int),
            ),
        decreases v@.len() - i,
    {
        assert(s@.take(i as int + 1).drop_last() =~= s@.take(i as int));
        if is_white(v[i]) {
            if from < i {
                let word = string_of(&v, from, i);
                proof {
                    lemma_texts_push(done@, word);
                }
                done.push(word);
            }
            from = i + 1;
        } else {
            assert(v@.subrange(from as int, i as int + 1) =~= v@.subrange(
                from as int,
                i as int,
            ).push(v@[i as int]));
            if from < i {
                let ghost before = texts(done@).push(v@.subrange(from as int, i as int));
                assert(before.drop_last() =~= texts(done@));
            } else {
                assert(v@.subrange(from as int, i as int + 1) =~= seq![v@[i as int]]);
            }
        }
        i += 1;
    }
    assert(s@.take(i as int) =~= s@);
    if from < i {
        let word = string_of(&v, from, i);
        proof {
            lemma_texts_push(done@, word);
        }
        done.push(word);
    }
    done
}

fn drop_return(s: &str) -> (r: String)
    ensures
        r@ == without_return(s@),
{
    let v = chars_of(s);
    if v.len() > 0 && v[v.len() - 1] == '\r' {
        assert(v@.subrange(0, v@.len() - 1) =~= s@.drop_last());
        string_of(&v, 0, v.len() - 1)
    } else {
        s.to_owned()
    }
}

/// The lines of the text.
pub fn lines(s: &str) -> (r: Vec<String>)
    ensures
        texts(r@) == lines_of(s@),
{
    let parts = split(s, '\n');
    let ghost all = pieces(s@, '\n');
    let ghost ended = Seq::new((all.len() - 1) as nat, |i: int| without_return(all[i]));
    let mut r: Vec<String> = Vec::new();
    let last: usize = parts.len() - 1;
    let mut i: usize = 0;
    assert(texts(r@) =~= ended.take(0));
    while i < last
        invariant
            i <= last,
            last + 1 == parts@.len(),
            all == texts(parts@),
            ended == Seq::new((all.len() - 1) as nat, |i: int| without_return(all[i])),
            texts(r@) == ended.take(i as int),
        decreases last - i,
    {
        let line = drop_return(parts[i].as_str());
        proof {
            lemma_texts_push(r@, line);
        }
        r.push(line);
        assert(ended.take(i as int + 1) =~= ended.take(i as int).push(ended[i as int]));
        i += 1;
    }
    assert(ended.take(i as int) =~= ended);
    assert(texts(parts@)[last as int] == all.last());
    if !parts[last].as_str().is_empty() {
        let line = parts[last].as_str().to_owned();
        proof {
            lemma_texts_push(r@, line);
        }
        r.push(line);
    }
    r
}

} // verus!
