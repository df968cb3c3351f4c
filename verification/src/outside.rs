//! Calls into other crates, and what is relied on of each.
use vstd::prelude::*;

verus! {

/// The SHA-256 digest of bytes.
pub uninterp spec fn sha256_digest(bytes: Seq<u8>) -> Seq<u8>;

/// `sha2::Sha256::digest`: the digest of the bytes, which has 32 bytes.
#[verifier::external_body]
pub(crate) fn sha256(bytes: &Vec<u8>) -> (r: Vec<u8>)
    ensures
        r@ == sha256_digest(bytes@),
        r@.len() == 32,
{
    <sha2::Sha256 as sha2::Digest>::digest(bytes.as_slice()).to_vec()
}

/// The parts of a URL that matter here.
pub struct UrlParts {
    pub scheme: String,
    pub host: Option<String>,
    pub username: String,
    pub password: Option<String>,
    pub fragment: Option<String>,
}

/// What a text means as a URL: its scheme, host, user name, password and fragment.
pub uninterp spec fn url_meaning(text: Seq<char>) -> Option<
    (Seq<char>, Option<Seq<char>>, Seq<char>, Option<Seq<char>>, Option<Seq<char>>),
>;

pub open spec fn url_view(r: Option<UrlParts>) -> Option<
    (Seq<char>, Option<Seq<char>>, Seq<char>, Option<Seq<char>>, Option<Seq<char>>),
> {
    match r {
        Some(u) => Some(
            (
                u.scheme@,
                crate::text::compose::opt_text(u.host),
                u.username@,
                crate::text::compose::opt_text(u.password),
                crate::text::compose::opt_text(u.fragment),
            ),
        ),
        None => None,
    }
}

/// `url::Url::parse` and the readers of the parsed URL: its parts, or nothing where the
/// text is no absolute URL. How the text is read is left to that crate.
#[verifier::external_body]
pub(crate) fn parse_url(text: &str) -> (r: Option<UrlParts>)
    ensures
        url_view(r) == url_meaning(text@),
{
    url::Url::parse(text).ok().map(|u| UrlParts {
        scheme: u.scheme().to_string(),
        host: u.host_str().map(|s| s.to_string()),
        username: u.username().to_string(),
        password: u.password().map(|s| s.to_string()),
        fragment: u.fragment().map(|s| s.to_string()),
    })
}

/// A point in time, by its seconds since the epoch and the nanoseconds within the
/// second, in the notation of RFC 3339, or what the time crate says where it cannot be
/// written so.
pub uninterp spec fn rfc3339_notation(seconds: int, nanoseconds: nat) -> Result<
    Seq<char>,
    Seq<char>,
>;

/// What was said of a point in time.
pub open spec fn notation_said(r: Result<String, String>) -> Result<Seq<char>, Seq<char>> {
    match r {
        Ok(s) => Ok(s@),
        Err(e) => Err(e@),
    }
}

/// `time::OffsetDateTime::from_unix_timestamp`, `replace_nanosecond` and `format` with
/// the well-known RFC 3339 description, in UTC: the notation of the point in time, or the
/// error of the first of them that refuses it.
#[verifier::external_body]
pub(crate) fn rfc3339(seconds: i64, nanoseconds: u32) -> (r: Result<String, String>)
    ensures
        notation_said(r) == rfc3339_notation(seconds as int, nanoseconds as nat),
{
    let start = time::OffsetDateTime::from_unix_timestamp(seconds).map_err(|e| e.to_string())?;
    let point = start.replace_nanosecond(nanoseconds).map_err(|e| e.to_string())?;
    point.format(&time::format_description::well_known::Rfc3339).map_err(|e| e.to_string())
}

/// The lowercase mapping of a character beyond ASCII.
pub uninterp spec fn lowercase_mapping(c: char) -> Seq<char>;

/// The small letters that stand for a character.
pub open spec fn small_letters(c: char) -> Seq<char> {
    if (c as int) < 128 {
        seq![crate::text::chars::lowered_char(c)]
    } else {
        lowercase_mapping(c)
    }
}

/// `char::to_lowercase`: the lowercase mapping of a character in Unicode. Of the ASCII
/// characters, the capital letters are mapped to the small ones and the others to
/// themselves. No capital letter of ASCII comes out.
#[verifier::external_body]
pub(crate) fn lowercase_of(c: char) -> (r: Vec<char>)
    ensures
        (c as int) < 128 ==> r@ == small_letters(c),
        (c as int) >= 128 ==> r@ == lowercase_mapping(c),
        forall|i: int|
            0 <= i < r@.len() ==> !crate::text::chars::upper_letter(#[trigger] r@[i]),
{
    c.to_lowercase().collect()
}

/// `String::from_utf8`: the text that the bytes are in UTF-8, or nothing where they are
/// no text in UTF-8.
#[verifier::external_body]
pub(crate) fn utf8_text(bytes: Vec<u8>) -> (r: Option<String>)
    ensures
        match r {
            Some(s) => vstd::utf8::valid_utf8(bytes@) && s@ == vstd::utf8::decode_utf8(bytes@),
            None => !vstd::utf8::valid_utf8(bytes@),
        },
{
    String::from_utf8(bytes).ok()
}

/// The text that `String::from_utf8_lossy` gives for bytes that are no text in UTF-8.
pub uninterp spec fn patched_text(bytes: Seq<u8>) -> Seq<char>;

/// What bytes say that are meant to be text in UTF-8.
pub open spec fn narrow_text(bytes: Seq<u8>) -> Seq<char> {
    if vstd::utf8::valid_utf8(bytes) {
        vstd::utf8::decode_utf8(bytes)
    } else {
        patched_text(bytes)
    }
}

/// `String::from_utf8_lossy`: the text that the bytes are in UTF-8. Where they are none,
/// what is not text is replaced; that result is named and not described.
#[verifier::external_body]
pub(crate) fn utf8_lossy(bytes: &Vec<u8>) -> (r: String)
    ensures
        vstd::utf8::valid_utf8(bytes@) ==> r@ == vstd::utf8::decode_utf8(bytes@),
        !vstd::utf8::valid_utf8(bytes@) ==> r@ == patched_text(bytes@),
{
    String::from_utf8_lossy(bytes).to_string()
}

/// Whether a word of UTF-16 is a character by itself.
pub open spec fn whole_word(w: u16) -> bool {
    w < 0xd800 || w >= 0xe000
}

/// The text that `String::from_utf16_lossy` gives for words that are not all characters
/// by themselves.
pub uninterp spec fn paired_text(words: Seq<u16>) -> Seq<char>;

/// What words say that are meant to be text in UTF-16.
pub open spec fn wide_text(words: Seq<u16>) -> Seq<char> {
    if forall|i: int| 0 <= i < words.len() ==> whole_word(#[trigger] words[i]) {
        Seq::new(words.len(), |i: int| words[i] as char)
    } else {
        paired_text(words)
    }
}

/// `String::from_utf16_lossy`: the text that the words are in UTF-16. A word that is no
/// surrogate is the character of that number. With surrogates among them, which are
/// paired or replaced, the result is named and not described.
#[verifier::external_body]
pub(crate) fn utf16_lossy(words: &Vec<u16>) -> (r: String)
    ensures
        (forall|i: int| 0 <= i < words@.len() ==> whole_word(#[trigger] words@[i])) ==> r@
            == Seq::new(words@.len(), |i: int| words@[i] as char),
        !(forall|i: int| 0 <= i < words@.len() ==> whole_word(#[trigger] words@[i])) ==> r@
            == paired_text(words@),
{
    String::from_utf16_lossy(words)
}

/// What `flate2::read::GzDecoder` makes of gzipped bytes: what it unpacks, and the error
/// that it ends with, if any.
pub uninterp spec fn unpacked_bytes(bytes: Seq<u8>) -> (Seq<u8>, Option<Seq<char>>);

/// `flate2::read::GzDecoder`, read to its end: what it unpacks, and the error that it ends
/// with, if any. The format is not described: the result is named.
#[verifier::external_body]
pub(crate) fn unpack(bytes: &Vec<u8>) -> (r: (Vec<u8>, Option<String>))
    ensures
        (r.0@, crate::text::compose::opt_text(r.1)) == unpacked_bytes(bytes@),
{
    let mut unpacked: Vec<u8> = Vec::new();
    let mut decoder = flate2::read::GzDecoder::new(bytes.as_slice());
    let end = std::io::Read::read_to_end(&mut decoder, &mut unpacked);
    (unpacked, end.err().map(|e| e.to_string()))
}

/// The mark of a GNU header in a tar archive.
pub open spec fn gnu_mark() -> Seq<u8> {
    seq![0x75, 0x73, 0x74, 0x61, 0x72, 0x20, 0x20, 0]
}

/// Whether a block of a tar archive is a GNU header of a sparse file whose map goes on in
/// the next block.
pub open spec fn long_sparse_block(tar: Seq<u8>, k: int) -> bool {
    &&& 0 <= k
    &&& 512 * k + 512 <= tar.len()
    &&& tar[512 * k + 156] == 0x53
    &&& tar.subrange(512 * k + 257, 512 * k + 265) == gnu_mark()
    &&& tar[512 * k + 482] == 1
}

/// Whether a block of a tar archive is of the type that can state the size of the next
/// file in words of its own.
pub open spec fn extension_block(tar: Seq<u8>, k: int) -> bool {
    0 <= k && 512 * k + 512 <= tar.len() && tar[512 * k + 156] == 0x78
}

/// Whether a tar archive may hold a sparse file that is followed by more of its map and
/// states a size near the largest number of 64 bits: one whose size is written in binary,
/// or any where sizes can be stated elsewhere.
pub open spec fn may_overrun(tar: Seq<u8>) -> bool {
    exists|k: int| #[trigger]
        long_sparse_block(tar, k) && (tar[512 * k + 124] >= 0x80 || exists|j: int| #[trigger]
            extension_block(tar, j))
}

/// The entry at a place of a tar archive, as tar reads it: the bytes of its path and
/// whether it is a regular file. Nothing where the archive ends before it. With it comes
/// how many bytes of the archive were not read.
pub uninterp spec fn archive_entry_at(tar: Seq<u8>, index: nat) -> (
    Option<Result<(Seq<u8>, bool), Seq<char>>>,
    nat,
);

/// Whether `r` can be what is read of an entry of an archive: its path as text, and
/// whether it is a regular file. A path that is no text may be refused.
pub open spec fn entry_said(
    entry: Option<Result<(Seq<u8>, bool), Seq<char>>>,
    r: Option<Result<(Result<String, String>, bool), String>>,
) -> bool {
    match (entry, r) {
        (None, None) => true,
        (Some(Err(reason)), Some(Err(e))) => e@ == reason,
        (Some(Ok((path, is_file))), Some(Ok((text, file)))) => file == is_file && match text {
            Ok(t) => t@ == narrow_text(path),
            Err(_) => !vstd::utf8::valid_utf8(path),
        },
        _ => false,
    }
}

/// `tar::Archive::entries` over bytes: the entry at a place of the archive, by
/// `tar::Entry::path` and by whether it is a regular file, or the error that came in its
/// place, or nothing where the archive ends before it; and how many bytes were left when
/// it was read. The format is not described: the result is named. A path that is no text
/// in UTF-8 is refused on Windows; elsewhere what is not text in it is replaced as
/// `String::from_utf8_lossy` does. Archives are left out on which tar can add to a
/// position beyond the largest number.
#[verifier::external_body]
pub(crate) fn archive_entry(unpacked: &Vec<u8>, index: usize) -> (r: (
    Option<Result<(Result<String, String>, bool), String>>,
    usize,
))
    requires
        !may_overrun(unpacked@),
    ensures
        entry_said(archive_entry_at(unpacked@, index as nat).0, r.0),
        r.1 == archive_entry_at(unpacked@, index as nat).1,
{
    let mut archive = tar::Archive::new(unpacked.as_slice());
    let entry = match archive.entries() {
        Ok(mut entries) => entries.nth(index).map(|entry| match entry {
            Ok(e) => {
                let path = e.path().map(|p| p.to_string_lossy().into_owned());
                Ok((path.map_err(|e| e.to_string()), e.header().entry_type().is_file()))
            },
            Err(e) => Err(e.to_string()),
        }),
        Err(e) => Some(Err(e.to_string())),
    };
    (entry, archive.into_inner().len())
}

/// The contents of the entry at a place of a tar archive, as tar reads them. Nothing where
/// the archive ends before it. With them comes how many bytes of the archive were not
/// read.
pub uninterp spec fn archive_contents_at(tar: Seq<u8>, index: nat) -> (
    Option<Result<Seq<u8>, Seq<char>>>,
    nat,
);

/// What the contents of an entry say.
pub open spec fn contents_said(r: Option<Result<Vec<u8>, String>>) -> Option<
    Result<Seq<u8>, Seq<char>>,
> {
    match r {
        Some(Ok(contents)) => Some(Ok(contents@)),
        Some(Err(e)) => Some(Err(e@)),
        None => None,
    }
}

/// `tar::Entry`'s `read_to_end` for the regular file at a place of an archive: its
/// contents, or the error that came in their place, or nothing where the archive ends
/// before it; and how many bytes were left when they were read. The format is not
/// described: the result is named. Left out are the archives on which tar can add to a
/// position beyond the largest number, and the entries that are no regular files, of which
/// a sparse one can be longer than any memory.
#[verifier::external_body]
pub(crate) fn archive_contents(unpacked: &Vec<u8>, index: usize) -> (r: (
    Option<Result<Vec<u8>, String>>,
    usize,
))
    requires
        !may_overrun(unpacked@),
        archive_entry_at(unpacked@, index as nat).0 matches Some(Ok((_, is_file))) && is_file,
    ensures
        contents_said(r.0) == archive_contents_at(unpacked@, index as nat).0,
        r.1 == archive_contents_at(unpacked@, index as nat).1,
{
    let mut archive = tar::Archive::new(unpacked.as_slice());
    let mut contents: Vec<u8> = Vec::new();
    let found = match archive.entries() {
        Ok(mut entries) => entries.nth(index).map(|entry| match entry {
            Ok(mut e) => std::io::Read::read_to_end(&mut e, &mut contents)
                .map_err(|e| e.to_string()),
            Err(e) => Err(e.to_string()),
        }),
        Err(e) => Some(Err(e.to_string())),
    };
    (found.map(|read| read.map(|_| contents)), archive.into_inner().len())
}

} // verus!
