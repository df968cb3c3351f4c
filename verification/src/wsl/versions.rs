//! Versions of drivers.
use vstd::prelude::*;

use crate::failure::{checked, Failure};
use crate::text::compose::texts;
use crate::text::number::{parse_u32, parsed};
use crate::text::pieces::{lines, lines_of, pieces, split};
use crate::text::trim::{is_blank, trim, trimmed};
use crate::wsl::output::{decode_output, decoded, CommandOutput};

verus! {

/// A part of a version; one that is missing counts as zero.
pub open spec fn version_part(parts: Seq<Seq<char>>, i: int) -> Option<nat> {
    if i < parts.len() {
        parsed(parts[i], u32::MAX as nat)
    } else {
        Some(0nat)
    }
}

/// The first three parts of a version.
pub open spec fn version_of(value: Seq<char>) -> Option<(nat, nat, nat)> {
    let parts = pieces(trimmed(value), '.');
    match (version_part(parts, 0), version_part(parts, 1), version_part(parts, 2)) {
        (Some(a), Some(b), Some(c)) => Some((a, b, c)),
        _ => None,
    }
}

/// Whether a version is older than another.
pub open spec fn older(a: (nat, nat, nat), b: (nat, nat, nat)) -> bool {
    a.0 < b.0 || (a.0 == b.0 && (a.1 < b.1 || (a.1 == b.1 && a.2 < b.2)))
}

fn part_at(parts: &Vec<String>, i: usize) -> (r: Option<u32>)
    ensures
        match r {
            Some(n) => version_part(texts(parts@), i as int) == Some(n as nat),
            None => version_part(texts(parts@), i as int) is None,
        },
{
    if i < parts.len() {
        parse_u32(parts[i].as_str())
    } else {
        Some(0)
    }
}

/// The first three parts of a version.
pub fn parse_version(value: &str) -> (r: Option<(u32, u32, u32)>)
    ensures
        match r {
            Some(v) => version_of(value@) == Some((v.0 as nat, v.1 as nat, v.2 as nat)),
            None => version_of(value@) is None,
        },
{
    let parts = split(trim(value).as_str(), '.');
    match (part_at(&parts, 0), part_at(&parts, 1), part_at(&parts, 2)) {
        (Some(a), Some(b), Some(c)) => Some((a, b, c)),
        _ => None,
    }
}

/// Why a driver cannot be used.
pub open spec fn driver_refusal(actual: Seq<char>, minimum: Seq<char>) -> Option<Seq<char>> {
    match (version_of(actual), version_of(minimum)) {
        (None, _) => Some("invalid NVIDIA driver version: "@ + actual),
        (_, None) => Some("invalid catalog minimum driver version: "@ + minimum),
        (Some(a), Some(b)) => if older(a, b) {
            Some(
                "NVIDIA driver "@ + actual
                    + " is too old for the pinned vLLM CUDA runtime; minimum required driver is "@
                    + minimum,
            )
        } else {
            None
        },
    }
}

/// Refuses a driver that is older than the given one.
pub fn require_minimum_driver(actual: &str, minimum: &str) -> (r: Result<(), Failure>)
    ensures
        checked(r, driver_refusal(actual@, minimum@)),
{
    let a = match parse_version(actual) {
        Some(v) => v,
        None => {
            return Err(Failure::about("invalid NVIDIA driver version: ", actual));
        },
    };
    let b = match parse_version(minimum) {
        Some(v) => v,
        None => {
            return Err(Failure::about("invalid catalog minimum driver version: ", minimum));
        },
    };
    if a.0 < b.0 || (a.0 == b.0 && (a.1 < b.1 || (a.1 == b.1 && a.2 < b.2))) {
        let message = "NVIDIA driver ".to_owned().concat(actual).concat(
            " is too old for the pinned vLLM CUDA runtime; minimum required driver is ",
        ).concat(minimum);
        return Err(Failure { message });
    }
    Ok(())
}

/// The first of some lines that says something, without the white space around it.
pub open spec fn first_stated_line(lines: Seq<Seq<char>>) -> Option<Seq<char>>
    decreases lines.len(),
{
    if lines.len() == 0 {
        None
    } else if trimmed(lines[0]).len() > 0 {
        Some(trimmed(lines[0]))
    } else {
        first_stated_line(lines.drop_first())
    }
}

/// The driver that `nvidia-smi` reports.
pub open spec fn reported_driver(output: CommandOutput) -> Result<Seq<char>, Seq<char>> {
    if !output.success {
        Err(
            "nvidia-smi failed while detecting the NVIDIA driver: "@ + trimmed(
                decoded(output.stderr@),
            ),
        )
    } else {
        match first_stated_line(lines_of(decoded(output.stdout@))) {
            Some(line) => Ok(line),
            None => Err("nvidia-smi returned no NVIDIA driver version"@),
        }
    }
}

/// The driver that `nvidia-smi` reports.
pub fn read_nvidia_driver(output: &CommandOutput) -> (r: Result<String, Failure>)
    ensures
        crate::failure::text_result(r) == reported_driver(*output),
{
    if !output.success {
        return Err(
            Failure::about(
                "nvidia-smi failed while detecting the NVIDIA driver: ",
                trim(decode_output(&output.stderr).as_str()).as_str(),
            ),
        );
    }
    let found = lines(decode_output(&output.stdout).as_str());
    let ghost all = texts(found@);
    let mut i: usize = 0;
    assert(all.skip(0) =~= all);
    while i < found.len()
        invariant
            i <= found@.len(),
            all == texts(found@),
            output.success,
            all == lines_of(decoded(output.stdout@)),
            first_stated_line(all) == first_stated_line(all.skip(i as int)),
        decreases found@.len() - i,
    {
        assert(all.skip(i as int).drop_first() =~= all.skip(i as int + 1));
        assert(all.skip(i as int)[0] == found@[i as int]@);
        if !is_blank(found[i].as_str()) {
            return Ok(trim(found[i].as_str()));
        }
        i += 1;
    }
    assert(all.skip(i as int) =~= Seq::<Seq<char>>::empty());
    Err(Failure::new("nvidia-smi returned no NVIDIA driver version"))
}

/// A driver that is accepted is no older than the one that is asked for.
pub proof fn accepted_drivers_are_recent(actual: Seq<char>, minimum: Seq<char>)
    requires
        driver_refusal(actual, minimum) is None,
    ensures
        version_of(actual) is Some,
        version_of(minimum) is Some,
        !older(version_of(actual)->0, version_of(minimum)->0),
{
}

} // verus!
