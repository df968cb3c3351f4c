//! The archive that `uv` comes in.
use vstd::prelude::*;

use crate::failure::Failure;
use crate::outside::{
    archive_contents, archive_contents_at, archive_entry, archive_entry_at, extension_block,
    gnu_mark, long_sparse_block, may_overrun, narrow_text, unpack, unpacked_bytes,
};
use crate::paths::{file_name_of, last_name, path_file_name, slashed};
use crate::text::chars::text_eq;
use crate::text::compose::opt_text;
use crate::text::pieces::pieces;

verus! {

/// The name of the file that a path inside an archive leads to.
pub fn entry_file_name(path: &str) -> (r: Option<String>)
    ensures
        file_name_of(path@, opt_text(r)),
{
    path_file_name(path)
}

pub open spec fn no_uv() -> Seq<char> {
    "managed uv archive does not contain the uv executable"@
}

/// Whether an entry is the program, by whether it is a regular file and by its name.
pub open spec fn is_uv(is_file: bool, name: Option<Seq<char>>) -> bool {
    is_file && name == Some("uv"@)
}

/// Whether an entry is the program, by whether it is a regular file and by its name.
pub fn is_program(is_file: bool, name: &Option<String>) -> (r: bool)
    ensures
        r == is_uv(is_file, opt_text(*name)),
{
    match name {
        Some(n) => is_file && text_eq(n.as_str(), "uv"),
        None => false,
    }
}

fn is_long_sparse_block(tar: &Vec<u8>, k: usize) -> (r: bool)
    requires
        512 * k + 512 <= tar@.len(),
    ensures
        r == long_sparse_block(tar@, k as int),
{
    let len: usize = tar.len();
    assert(512 * k + 512 <= len);
    let at: usize = 512 * k;
    let ghost mark = tar@.subrange(at + 257, at + 265);
    assert(mark == gnu_mark() <==> mark[0] == 0x75 && mark[1] == 0x73 && mark[2] == 0x74
        && mark[3] == 0x61 && mark[4] == 0x72 && mark[5] == 0x20 && mark[6] == 0x20 && mark[7]
        == 0) by {
        if mark[0] == 0x75 && mark[1] == 0x73 && mark[2] == 0x74 && mark[3] == 0x61 && mark[4]
            == 0x72 && mark[5] == 0x20 && mark[6] == 0x20 && mark[7] == 0 {
            assert(mark =~= gnu_mark());
        }
    }
    tar[at + 156] == 0x53 && tar[at + 482] == 1 && tar[at + 257] == 0x75 && tar[at + 258] == 0x73
        && tar[at + 259] == 0x74 && tar[at + 260] == 0x61 && tar[at + 261] == 0x72 && tar[at + 262]
        == 0x20 && tar[at + 263] == 0x20 && tar[at + 264] == 0
}

fn has_extension_block(tar: &Vec<u8>) -> (r: bool)
    ensures
        r == exists|j: int| extension_block(tar@, j),
{
    let len: usize = tar.len();
    let blocks: usize = len / 512;
    let mut k: usize = 0;
    while k < blocks
        invariant
            len == tar@.len(),
            blocks == len / 512,
            k <= blocks,
            forall|j: int| j < k ==> !#[trigger] extension_block(tar@, j),
        decreases blocks - k,
    {
        if tar[512 * k + 156] == 0x78 {
            assert(extension_block(tar@, k as int));
            return true;
        }
        k += 1;
    }
    false
}

/// Whether an archive may hold a sparse file of a size that cannot be counted with.
pub fn holds_overrun(tar: &Vec<u8>) -> (r: bool)
    ensures
        r == may_overrun(tar@),
{
    let extensions = has_extension_block(tar);
    let len: usize = tar.len();
    let blocks: usize = len / 512;
    let mut k: usize = 0;
    while k < blocks
        invariant
            len == tar@.len(),
            blocks == len / 512,
            k <= blocks,
            extensions == exists|j: int| extension_block(tar@, j),
            forall|j: int|
                j < k && #[trigger] long_sparse_block(tar@, j) ==> tar@[512 * j + 124] < 0x80
                    && !extensions,
        decreases blocks - k,
    {
        if is_long_sparse_block(tar, k) && (tar[512 * k + 124] >= 0x80 || extensions) {
            assert(long_sparse_block(tar@, k as int));
            return true;
        }
        k += 1;
    }
    false
}

/// What an archive is refused with that may hold a sparse file of a size that cannot be
/// counted with.
pub open spec fn overrun_refusal() -> Seq<char> {
    "managed uv archive holds a sparse file of a size that cannot be read"@
}

/// The bytes that are read as an archive. One byte stands behind those of an archive that
/// breaks off: where it is read, the archive broke off before that.
pub open spec fn readable(unpacked: Seq<u8>, broken: Option<Seq<char>>) -> Seq<u8> {
    if broken is Some {
        unpacked.push(1)
    } else {
        unpacked
    }
}

/// Whether an archive broke off before what was read of it.
pub open spec fn broke_off(broken: Option<Seq<char>>, unread: nat) -> bool {
    broken is Some && unread == 0
}

/// What comes of an entry that is the program: its contents.
pub open spec fn uv_contents(tar: Seq<u8>, broken: Option<Seq<char>>, index: nat) -> Result<
    Seq<u8>,
    Seq<char>,
> {
    let (contents, unread) = archive_contents_at(tar, index);
    if broke_off(broken, unread) {
        Err(broken->0)
    } else {
        match contents {
            None => Err(no_uv()),
            Some(found) => found,
        }
    }
}

/// Whether `r` can be the program in an archive, from a place of it on: the contents of
/// the first regular file with its name. A path that is no text may be refused.
pub open spec fn uv_from(
    tar: Seq<u8>,
    broken: Option<Seq<char>>,
    index: nat,
    r: Result<Seq<u8>, Seq<char>>,
) -> bool
    decreases usize::MAX - index,
{
    if index >= usize::MAX {
        r == Err::<Seq<u8>, Seq<char>>(no_uv())
    } else if broke_off(broken, archive_entry_at(tar, index).1) {
        r == Err::<Seq<u8>, Seq<char>>(broken->0)
    } else {
        match archive_entry_at(tar, index).0 {
            None => r == Err::<Seq<u8>, Seq<char>>(no_uv()),
            Some(Err(reason)) => r == Err::<Seq<u8>, Seq<char>>(reason),
            Some(Ok((path, is_file))) => {
                ||| !vstd::utf8::valid_utf8(path) && r is Err
                ||| exists|name: Option<Seq<char>>| #[trigger]
                    file_name_of(narrow_text(path), name) && if is_uv(is_file, name) {
                        r == uv_contents(tar, broken, index)
                    } else {
                        uv_from(tar, broken, index + 1, r)
                    }
            },
        }
    }
}

/// Whether `r` can be the program in an archive that was unpacked, up to where it breaks
/// off.
pub open spec fn uv_in(
    unpacked: Seq<u8>,
    broken: Option<Seq<char>>,
    r: Result<Seq<u8>, Seq<char>>,
) -> bool {
    let tar = readable(unpacked, broken);
    if may_overrun(tar) {
        r == Err::<Seq<u8>, Seq<char>>(overrun_refusal())
    } else {
        uv_from(tar, broken, 0, r)
    }
}

/// The program that was read, or what stands against it.
pub open spec fn program_said(r: Result<Vec<u8>, Failure>) -> Result<Seq<u8>, Seq<char>> {
    match r {
        Ok(contents) => Ok(contents@),
        Err(e) => Err(e@),
    }
}

fn none_found() -> (r: Failure)
    ensures
        r@ == no_uv(),
{
    Failure::new("managed uv archive does not contain the uv executable")
}

fn read_program(tar: &Vec<u8>, broken: &Option<String>, index: usize) -> (r: Result<
    Vec<u8>,
    Failure,
>)
    requires
        !may_overrun(tar@),
        archive_entry_at(tar@, index as nat).0 matches Some(Ok((_, is_file))) && is_file,
    ensures
        program_said(r) == uv_contents(tar@, opt_text(*broken), index as nat),
{
    let (contents, unread) = archive_contents(tar, index);
    if let Some(reason) = broken {
        if unread == 0 {
            return Err(Failure::new(reason.as_str()));
        }
    }
    match contents {
        Some(Ok(contents)) => Ok(contents),
        Some(Err(reason)) => Err(Failure { message: reason }),
        None => Err(none_found()),
    }
}

/// The program in an archive that was unpacked: the contents of the first regular file
/// with its name. `broken` is why the archive breaks off, where it does.
pub fn find_uv(unpacked: Vec<u8>, broken: &Option<String>) -> (r: Result<Vec<u8>, Failure>)
    ensures
        uv_in(unpacked@, opt_text(*broken), program_said(r)),
{
    let ghost said = opt_text(*broken);
    let mut tar = unpacked;
    if broken.is_some() {
        tar.push(1);
    }
    assert(tar@ == readable(unpacked@, said));
    if holds_overrun(&tar) {
        return Err(
            Failure::new("managed uv archive holds a sparse file of a size that cannot be read"),
        );
    }
    let mut index: usize = 0;
    while index < usize::MAX
        invariant
            index <= usize::MAX,
            said == opt_text(*broken),
            tar@ == readable(unpacked@, said),
            !may_overrun(tar@),
            forall|o: Result<Seq<u8>, Seq<char>>| #[trigger]
                uv_from(tar@, said, index as nat, o) ==> uv_from(tar@, said, 0, o),
        decreases usize::MAX - index,
    {
        let ghost here = index as nat;
        let (entry, unread) = archive_entry(&tar, index);
        if let Some(reason) = broken {
            if unread == 0 {
                let r = Err(Failure::new(reason.as_str()));
                assert(uv_from(tar@, said, here, program_said(r)));
                return r;
            }
        }
        let (path, is_file) = match entry {
            None => {
                let r = Err(none_found());
                assert(uv_from(tar@, said, here, program_said(r)));
                return r;
            },
            Some(Err(reason)) => {
                let r = Err(Failure { message: reason });
                assert(uv_from(tar@, said, here, program_said(r)));
                return r;
            },
            Some(Ok(entry)) => entry,
        };
        let path = match path {
            Ok(path) => path,
            Err(reason) => {
                let r = Err(Failure { message: reason });
                assert(uv_from(tar@, said, here, program_said(r)));
                return r;
            },
        };
        let name = entry_file_name(path.as_str());
        assert(file_name_of(path@, opt_text(name)));
        if is_program(is_file, &name) {
            let r = read_program(&tar, broken, index);
            assert(uv_from(tar@, said, here, program_said(r)));
            return r;
        }
        assert forall|o: Result<Seq<u8>, Seq<char>>| #[trigger]
            uv_from(tar@, said, here + 1, o) implies uv_from(tar@, said, 0, o) by {
            assert(uv_from(tar@, said, here, o));
        }
        index += 1;
        assert(index as nat == here + 1);
    }
    let r = Err(none_found());
    assert(uv_from(tar@, said, index as nat, program_said(r)));
    r
}

/// The program in an archive: the contents of the first regular file with its name.
pub fn extract_uv(bytes: &Vec<u8>) -> (r: Result<Vec<u8>, Failure>)
    ensures
        uv_in(unpacked_bytes(bytes@).0, unpacked_bytes(bytes@).1, program_said(r)),
{
    let (unpacked, broken) = unpack(bytes);
    find_uv(unpacked, &broken)
}

/// The name of the file that an ordinary path leads to.
pub open spec fn slashed_name(path: Seq<u8>) -> Option<Seq<char>> {
    last_name(pieces(vstd::utf8::decode_utf8(path), '/'))
}

/// Whether an entry was read whose path means the same on every machine.
pub open spec fn ordinary(tar: Seq<u8>, broken: Option<Seq<char>>, index: nat) -> bool {
    let (entry, unread) = archive_entry_at(tar, index);
    &&& !broke_off(broken, unread)
    &&& entry matches Some(Ok((path, _))) && vstd::utf8::valid_utf8(path) && slashed(
        vstd::utf8::decode_utf8(path),
    )
}

/// Whether an ordinary entry is the program.
pub open spec fn holds_uv(tar: Seq<u8>, index: nat) -> bool {
    archive_entry_at(tar, index).0 matches Some(Ok((path, is_file))) && is_uv(
        is_file,
        slashed_name(path),
    )
}

/// In an archive of ordinary paths the first regular file with the name of the program is
/// the program, on every machine, whether or not the archive breaks off behind it.
pub proof fn the_first_program_is_taken(
    tar: Seq<u8>,
    broken: Option<Seq<char>>,
    from: nat,
    at: nat,
    r: Result<Seq<u8>, Seq<char>>,
)
    requires
        from <= at < usize::MAX,
        forall|i: nat| from <= i <= at ==> #[trigger] ordinary(tar, broken, i),
        forall|i: nat| from <= i < at ==> !#[trigger] holds_uv(tar, i),
        holds_uv(tar, at),
        uv_from(tar, broken, from, r),
    ensures
        r == uv_contents(tar, broken, at),
    decreases at - from,
{
    assert(ordinary(tar, broken, from));
    if from < at {
        assert(!holds_uv(tar, from));
        the_first_program_is_taken(tar, broken, from + 1, at, r);
    }
}

} // verus!
