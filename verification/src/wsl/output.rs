//! What commands leave behind.
use vstd::prelude::*;

use crate::failure::Failure;
use crate::outside::{narrow_text, utf16_lossy, utf8_lossy, whole_word, wide_text};
use crate::text::trim::{
    blank, is_blank, left_trimmed, right_trimmed, trim, trim_end_of, trim_start_of, trimmed,
    CharClass,
};

verus! {

/// How a command ended and what it wrote.
#[derive(Debug)]
pub struct CommandOutput {
    pub success: bool,
    /// The exit code, where there is one.
    pub code: Option<i32>,
    /// The exit status in words.
    pub status: String,
    pub stdout: Vec<u8>,
    pub stderr: Vec<u8>,
}

/// Whether bytes look like words of two bytes each: some word has an empty upper half.
pub open spec fn looks_wide(bytes: Seq<u8>) -> bool {
    bytes.len() >= 2 && exists|i: int| 0 <= i && 2 * i + 1 < bytes.len() && #[trigger] bytes[2 * i
        + 1] == 0
}

/// Bytes in pairs, the lower half of each word first.
pub open spec fn words_in(bytes: Seq<u8>) -> Seq<u16> {
    Seq::new(
        bytes.len() / 2,
        |i: int| (bytes[2 * i] as int + 256 * (bytes[2 * i + 1] as int)) as u16,
    )
}

/// The text that a command wrote. Windows writes words of two bytes, Linux single bytes.
pub open spec fn decoded(bytes: Seq<u8>) -> Seq<char> {
    if looks_wide(bytes) {
        left_trimmed(wide_text(words_in(bytes)), CharClass::Only('\u{feff}'))
    } else {
        narrow_text(bytes)
    }
}

fn is_wide(bytes: &Vec<u8>) -> (r: bool)
    ensures
        r == looks_wide(bytes@),
{
    let len: usize = bytes.len();
    let n: usize = len / 2;
    let mut i: usize = 0;
    while i < n
        invariant
            len == bytes@.len(),
            n == len / 2,
            i <= n,
            forall|j: int|
                0 <= j < i && 2 * j + 1 < bytes@.len() ==> #[trigger] bytes@[2 * j + 1] != 0,
        decreases n - i,
    {
        if bytes[2 * i + 1] == 0 {
            assert(bytes@[2 * (i as int) + 1] == 0);
            return true;
        }
        i += 1;
    }
    false
}

fn pair_up(bytes: &Vec<u8>) -> (r: Vec<u16>)
    ensures
        r@ == words_in(bytes@),
{
    let len: usize = bytes.len();
    let n: usize = len / 2;
    let mut r: Vec<u16> = Vec::new();
    let mut i: usize = 0;
    while i < n
        invariant
            len == bytes@.len(),
            n == len / 2,
            i <= n,
            r@.len() == i,
            forall|j: int| 0 <= j < i ==> #[trigger] r@[j] == words_in(bytes@)[j],
        decreases n - i,
    {
        let low: u16 = bytes[2 * i] as u16;
        let high: u16 = bytes[2 * i + 1] as u16;
        r.push(low + 256 * high);
        i += 1;
    }
    assert(r@ =~= words_in(bytes@));
    r
}

/// The text that a command wrote. Windows writes words of two bytes, Linux single bytes.
pub fn decode_output(bytes: &Vec<u8>) -> (r: String)
    ensures
        r@ == decoded(bytes@),
{
    if is_wide(bytes) {
        let words = pair_up(bytes);
        let text = utf16_lossy(&words);
        assert(text@ == wide_text(words@));
        trim_start_of(text.as_str(), CharClass::Only('\u{feff}'))
    } else {
        utf8_lossy(bytes)
    }
}

/// What is said of a command that failed.
pub open spec fn failure_words(output: CommandOutput, action: Seq<char>) -> Seq<char> {
    action + " failed with "@ + output.status@ + ": "@ + trimmed(decoded(output.stderr@))
}

/// Refuses a command that failed.
pub fn require_success(output: &CommandOutput, action: &str) -> (r: Result<(), Failure>)
    ensures
        match r {
            Ok(_) => output.success,
            Err(e) => !output.success && e@ == failure_words(*output, action@),
        },
{
    if output.success {
        return Ok(());
    }
    let message = action.to_owned().concat(" failed with ").concat(output.status.as_str()).concat(
        ": ",
    ).concat(trim(decode_output(&output.stderr).as_str()).as_str());
    Err(Failure { message })
}

/// A stream of a command as it is logged; nothing where it is blank.
pub open spec fn logged_stream(name: Seq<char>, bytes: Seq<u8>) -> Seq<char> {
    if blank(decoded(bytes)) {
        ""@
    } else {
        name + ":\n"@ + right_trimmed(decoded(bytes), CharClass::White) + "\n"@
    }
}

/// What is logged of a command.
pub open spec fn logged(action: Seq<char>, output: CommandOutput) -> Seq<char> {
    "\n== "@ + action + " ==\n"@ + logged_stream("stdout"@, output.stdout@) + logged_stream(
        "stderr"@,
        output.stderr@,
    ) + "status: "@ + output.status@ + "\n"@
}

fn log_stream(name: &str, bytes: &Vec<u8>) -> (r: String)
    ensures
        r@ == logged_stream(name@, bytes@),
{
    let text = decode_output(bytes);
    if is_blank(text.as_str()) {
        "".to_owned()
    } else {
        name.to_owned().concat(":\n").concat(
            trim_end_of(text.as_str(), CharClass::White).as_str(),
        ).concat("\n")
    }
}

/// What is logged of a command.
pub fn log_entry(action: &str, output: &CommandOutput) -> (r: String)
    ensures
        r@ == logged(action@, *output),
{
    "\n== ".to_owned().concat(action).concat(" ==\n").concat(
        log_stream("stdout", &output.stdout).as_str(),
    ).concat(log_stream("stderr", &output.stderr).as_str()).concat("status: ").concat(
        output.status.as_str(),
    ).concat("\n")
}

/// A text as words of two bytes, the lower half of each first.
pub open spec fn wide_bytes(s: Seq<char>) -> Seq<u8> {
    Seq::new(
        2 * s.len(),
        |i: int|
            if i % 2 == 0 {
                ((s[i / 2] as int) % 256) as u8
            } else {
                ((s[i / 2] as int) / 256) as u8
            },
    )
}

proof fn lemma_char(c: char)
    ensures
        0 <= c as int <= 0x10ffff,
{
}

/// A text that was written in words of two bytes is read back, where each of its
/// characters is one word, one of them is in the first 256, and it does not start with
/// the mark that tells the order of the bytes.
pub proof fn wide_texts_are_read_back(s: Seq<char>, at: int)
    requires
        forall|i: int|
            0 <= i < s.len() ==> (#[trigger] s[i] as int) < 0xd800 || 0xe000 <= s[i] as int
                <= 0xffff,
        0 <= at < s.len(),
        (s[at] as int) < 256,
        s[0] != '\u{feff}',
    ensures
        decoded(wide_bytes(s)) == s,
{
    let bytes = wide_bytes(s);
    assert(bytes.len() == 2 * s.len());
    lemma_char(s[at]);
    assert((2 * at + 1) / 2 == at && (2 * at + 1) % 2 == 1);
    assert(bytes[2 * at + 1] == 0);
    assert(looks_wide(bytes));
    let words = words_in(bytes);
    assert forall|i: int| 0 <= i < words.len() implies #[trigger] words[i] as int == s[i] as int
        && whole_word(words[i]) by {
        let c = s[i] as int;
        lemma_char(s[i]);
        assert((2 * i) / 2 == i && (2 * i + 1) / 2 == i);
        assert((2 * i) % 2 == 0 && (2 * i + 1) % 2 == 1);
        assert(bytes[2 * i] == (c % 256) as u8);
        assert(bytes[2 * i + 1] == (c / 256) as u8);
        assert(0 <= c / 256 < 256);
        assert(c == c % 256 + 256 * (c / 256));
    }
    let text = wide_text(words);
    assert(text.len() == s.len());
    assert forall|i: int| 0 <= i < s.len() implies #[trigger] text[i] == s[i] by {
        assert(words[i] as int == s[i] as int);
    }
    assert(text =~= s);
    assert(left_trimmed(s, CharClass::Only('\u{feff}')) == s);
}

/// A text that was written in single bytes is read back, where none of them is empty.
pub proof fn narrow_texts_are_read_back(s: Seq<char>)
    requires
        forall|i: int|
            0 <= i < vstd::utf8::encode_utf8(s).len() ==> #[trigger] vstd::utf8::encode_utf8(s)[i]
                != 0,
    ensures
        decoded(vstd::utf8::encode_utf8(s)) == s,
{
    vstd::utf8::encode_utf8_valid_utf8(s);
    vstd::utf8::encode_utf8_decode_utf8(s);
}

} // verus!
