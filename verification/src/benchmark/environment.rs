//! Where a benchmark ran: the device, and where its runtime came from.
use vstd::prelude::*;

use crate::benchmark::metadata::{
    command_refusal, either, text_refusal, validate_text, validated_command,
};
use crate::failure::Failure;
use crate::json::{member, text_member, views, Json, JsonView};
use crate::runtime::plan::{debug_quoted, debug_text};
use crate::text::chars::{lowered, text_eq, to_lower};
use crate::text::compose::{copy_opt, no_texts, opt_text, put, replace, replaced, texts};
use crate::text::pieces::{lines, lines_of, pieces, split};
use crate::text::search::{contains, cut_once, has_text, split_once};
use crate::text::trim::{trim, trimmed};

verus! {

/// The device that a line of a listing is about: its index and its name.
pub open spec fn listed_device(line: Seq<char>) -> Option<(Seq<char>, Seq<char>)> {
    match cut_once(line, ',') {
        Some((index, name)) => Some((trimmed(index), trimmed(name))),
        None => None,
    }
}

/// The devices of a listing, one per line.
pub open spec fn listed_devices(rows: Seq<Seq<char>>) -> Seq<(Seq<char>, Seq<char>)>
    decreases rows.len(),
{
    if rows.len() == 0 {
        seq![]
    } else {
        match listed_device(rows.last()) {
            Some(d) => listed_devices(rows.drop_last()).push(d),
            None => listed_devices(rows.drop_last()),
        }
    }
}

/// The name of the first device with an index.
pub open spec fn name_at(devices: Seq<(Seq<char>, Seq<char>)>, index: Seq<char>) -> Option<
    Seq<char>,
>
    decreases devices.len(),
{
    if devices.len() == 0 {
        None
    } else if devices[0].0 == index {
        Some(devices[0].1)
    } else {
        name_at(devices.drop_first(), index)
    }
}

/// The name of the device that a runtime uses: the first that it can see, or the only
/// one there is.
pub open spec fn gpu_name(
    visible: Option<Seq<char>>,
    devices: Seq<(Seq<char>, Seq<char>)>,
) -> Option<Seq<char>> {
    let chosen = match visible {
        Some(index) => name_at(devices, index),
        None => None,
    };
    match chosen {
        Some(name) => Some(name),
        None => if devices.len() == 1 {
            Some(devices[0].1)
        } else {
            None
        },
    }
}

/// The first of the devices that a runtime can see.
pub open spec fn first_visible(state: JsonView) -> Option<Seq<char>> {
    match text_member(state, "cuda_visible_devices"@) {
        Some(list) => Some(trimmed(pieces(list, ',')[0])),
        None => None,
    }
}

/// The name of the device, as far as the machine gives it: from a listing of its GPUs,
/// from the brand of its processor, or from its architecture.
pub open spec fn device_name(
    backend: Seq<char>,
    state: JsonView,
    gpus: Option<Seq<char>>,
    brand: Option<Seq<char>>,
    arch: Seq<char>,
) -> Option<Seq<char>> {
    if contains(backend, "cuda"@) {
        match gpus {
            Some(listing) => gpu_name(first_visible(state), listed_devices(lines_of(listing))),
            None => None,
        }
    } else if contains(backend, "mac"@) {
        match brand {
            Some(b) => if trimmed(b).len() == 0 {
                None
            } else {
                Some(trimmed(b))
            },
            None => None,
        }
    } else if arch == "x86_64"@ && !contains(backend, "rocm"@) {
        Some("x86-64 PC CPU"@)
    } else {
        None
    }
}

pub open spec fn device_views(v: Seq<(String, String)>) -> Seq<(Seq<char>, Seq<char>)> {
    Seq::new(v.len(), |i: int| (v[i].0@, v[i].1@))
}

fn parse_devices(listing: &str) -> (r: Vec<(String, String)>)
    ensures
        device_views(r@) == listed_devices(lines_of(listing@)),
{
    let rows = lines(listing);
    let ghost all = lines_of(listing@);
    let mut r: Vec<(String, String)> = Vec::new();
    let mut i: usize = 0;
    assert(device_views(r@) =~= listed_devices(all.take(0)));
    while i < rows.len()
        invariant
            i <= rows@.len(),
            all == texts(rows@),
            device_views(r@) == listed_devices(all.take(i as int)),
        decreases rows@.len() - i,
    {
        assert(all.take(i as int + 1).drop_last() =~= all.take(i as int));
        assert(all.take(i as int + 1).last() == rows@[i as int]@);
        if let Some((index, name)) = split_once(rows[i].as_str(), ',') {
            let ghost was = device_views(r@);
            let entry = (trim(index.as_str()), trim(name.as_str()));
            r.push(entry);
            assert(device_views(r@) =~= was.push((entry.0@, entry.1@)));
        }
        i += 1;
    }
    assert(all.take(i as int) =~= all);
    r
}

fn find_name(devices: &Vec<(String, String)>, index: &str) -> (r: Option<String>)
    ensures
        opt_text(r) == name_at(device_views(devices@), index@),
{
    let ghost all = device_views(devices@);
    let mut i: usize = 0;
    assert(all.skip(0) =~= all);
    while i < devices.len()
        invariant
            i <= devices@.len(),
            all == device_views(devices@),
            name_at(all, index@) == name_at(all.skip(i as int), index@),
        decreases devices@.len() - i,
    {
        assert(all.skip(i as int).drop_first() =~= all.skip(i as int + 1));
        if text_eq(devices[i].0.as_str(), index) {
            return Some(devices[i].1.as_str().to_owned());
        }
        i += 1;
    }
    None
}

/// The name of the device, as far as the machine gives it. `gpus` is a listing of the
/// GPUs, `brand` is what the processor calls itself, and `arch` is its architecture.
pub fn detect_device_name(
    backend: &str,
    state: &Json,
    gpus: &Option<String>,
    brand: &Option<String>,
    arch: &str,
) -> (r: Option<String>)
    ensures
        opt_text(r) == device_name(backend@, state@, opt_text(*gpus), opt_text(*brand), arch@),
{
    if has_text(backend, "cuda") {
        let listing = match gpus {
            Some(listing) => listing,
            None => {
                return None;
            },
        };
        let devices = parse_devices(listing.as_str());
        let chosen = match state.get_text("cuda_visible_devices") {
            Some(list) => {
                let parts = split(list.as_str(), ',');
                assert(texts(parts@)[0] == parts@[0]@);
                find_name(&devices, trim(parts[0].as_str()).as_str())
            },
            None => None,
        };
        if chosen.is_some() {
            return chosen;
        }
        if devices.len() == 1 {
            assert(device_views(devices@)[0] == (devices@[0].0@, devices@[0].1@));
            return Some(devices[0].1.as_str().to_owned());
        }
        return None;
    }
    if has_text(backend, "mac") {
        return match brand {
            Some(b) => {
                let name = trim(b.as_str());
                if name.as_str().is_empty() {
                    None
                } else {
                    Some(name)
                }
            },
            None => None,
        };
    }
    if text_eq(arch, "x86_64") && !has_text(backend, "rocm") {
        return Some("x86-64 PC CPU".to_owned());
    }
    None
}

/// The graphics cards that the catalog knows by their number, the longer names first.
pub open spec fn known_cards() -> Seq<Seq<char>> {
    Seq::<Seq<char>>::empty()
        .push("5090"@)
        .push("5080"@)
        .push("5070 ti"@)
        .push("5070"@)
        .push("5060 ti"@)
        .push("5060"@)
        .push("4090"@)
        .push("4080 super"@)
        .push("4080"@)
        .push("4070 ti super"@)
        .push("4070 ti"@)
        .push("4070 super"@)
        .push("4070"@)
        .push("4060 ti"@)
        .push("4060"@)
        .push("3090 ti"@)
        .push("3090"@)
        .push("3080 ti"@)
        .push("3080"@)
        .push("3070 ti"@)
        .push("3070"@)
        .push("3060 ti"@)
        .push("3060"@)
}

/// The identifier of the first card whose name occurs in a text.
pub open spec fn first_card(cards: Seq<Seq<char>>, name: Seq<char>) -> Option<Seq<char>>
    decreases cards.len(),
{
    if cards.len() == 0 {
        None
    } else if contains(name, "rtx "@ + cards[0]) {
        Some("rtx-"@ + replaced(cards[0], ' ', "-"@))
    } else {
        first_card(cards.drop_first(), name)
    }
}

/// The identifier of a device in the catalog.
pub open spec fn device_id(name: Seq<char>) -> Option<Seq<char>> {
    let n = lowered(name);
    if contains(n, "apple"@) {
        Some("apple-silicon"@)
    } else if contains(n, "radeon 8060s"@) {
        Some("radeon-8060s"@)
    } else if contains(n, "radeon"@) {
        Some("amd-radeon-pc"@)
    } else if contains(n, "x86-64"@) || contains(n, "x86_64"@) {
        Some("x86-64-cpu"@)
    } else {
        first_card(known_cards(), n)
    }
}

fn cards() -> (r: Vec<String>)
    ensures
        texts(r@) == known_cards(),
{
    let mut r = no_texts();
    put(&mut r, "5090");
    put(&mut r, "5080");
    put(&mut r, "5070 ti");
    put(&mut r, "5070");
    put(&mut r, "5060 ti");
    put(&mut r, "5060");
    put(&mut r, "4090");
    put(&mut r, "4080 super");
    put(&mut r, "4080");
    put(&mut r, "4070 ti super");
    put(&mut r, "4070 ti");
    put(&mut r, "4070 super");
    put(&mut r, "4070");
    put(&mut r, "4060 ti");
    put(&mut r, "4060");
    put(&mut r, "3090 ti");
    put(&mut r, "3090");
    put(&mut r, "3080 ti");
    put(&mut r, "3080");
    put(&mut r, "3070 ti");
    put(&mut r, "3070");
    put(&mut r, "3060 ti");
    put(&mut r, "3060");
    r
}

/// The identifier of a device in the catalog.
pub fn catalog_device_id(device_name: &str) -> (r: Option<String>)
    ensures
        opt_text(r) == device_id(device_name@),
{
    let name = to_lower(device_name);
    let n = name.as_str();
    if has_text(n, "apple") {
        return Some("apple-silicon".to_owned());
    }
    if has_text(n, "radeon 8060s") {
        return Some("radeon-8060s".to_owned());
    }
    if has_text(n, "radeon") {
        return Some("amd-radeon-pc".to_owned());
    }
    if has_text(n, "x86-64") || has_text(n, "x86_64") {
        return Some("x86-64-cpu".to_owned());
    }
    let all = cards();
    let ghost known = known_cards();
    let mut i: usize = 0;
    assert(known.skip(0) =~= known);
    while i < all.len()
        invariant
            i <= all@.len(),
            known == texts(all@),
            n@ == lowered(device_name@),
            device_id(device_name@) == first_card(known.skip(i as int), n@),
        decreases all@.len() - i,
    {
        assert(known.skip(i as int).drop_first() =~= known.skip(i as int + 1));
        assert(known.skip(i as int)[0] == all@[i as int]@);
        if has_text(n, "rtx ".to_owned().concat(all[i].as_str()).as_str()) {
            return Some("rtx-".to_owned().concat(replace(all[i].as_str(), ' ', "-").as_str()));
        }
        i += 1;
    }
    None
}

/// The device of a benchmark: its name and its identifier in the catalog, given or
/// found.
pub open spec fn device_for(
    given_name: Option<Seq<char>>,
    given_soc: Option<Seq<char>>,
    detected: Option<Seq<char>>,
) -> Result<(Seq<char>, Seq<char>), Seq<char>> {
    let name = match given_name {
        Some(n) => Some(n),
        None => detected,
    };
    match name {
        None => Err("Device name could not be detected. Pass --device-name explicitly."@),
        Some(n) => {
            let soc = match given_soc {
                Some(s) => Some(s),
                None => device_id(n),
            };
            match soc {
                None => Err(
                    "Catalog device ID could not be inferred from "@ + debug_text(n)
                        + ". Pass --soc explicitly."@,
                ),
                Some(s) => match either(
                    text_refusal("device name"@, n, 256),
                    text_refusal("device SoC"@, s, 256),
                ) {
                    Some(reason) => Err(reason),
                    None => Ok((n, s)),
                },
            }
        },
    }
}

pub open spec fn pair_result(r: Result<(String, String), Failure>) -> Result<
    (Seq<char>, Seq<char>),
    Seq<char>,
> {
    match r {
        Ok(p) => Ok((p.0@, p.1@)),
        Err(e) => Err(e@),
    }
}

/// The device of a benchmark.
pub fn resolve_device(
    given_name: &Option<String>,
    given_soc: &Option<String>,
    detected: &Option<String>,
) -> (r: Result<(String, String), Failure>)
    ensures
        pair_result(r) == device_for(
            opt_text(*given_name),
            opt_text(*given_soc),
            opt_text(*detected),
        ),
{
    let chosen = match given_name {
        Some(n) => Some(n.as_str().to_owned()),
        None => copy_opt(detected),
    };
    let name = match chosen {
        Some(n) => n,
        None => {
            return Err(
                Failure::new("Device name could not be detected. Pass --device-name explicitly."),
            );
        },
    };
    let found = match given_soc {
        Some(s) => Some(s.as_str().to_owned()),
        None => catalog_device_id(name.as_str()),
    };
    let soc = match found {
        Some(s) => s,
        None => {
            return Err(
                Failure::of(
                    "Catalog device ID could not be inferred from ",
                    debug_quoted(name.as_str()).as_str(),
                    ". Pass --soc explicitly.",
                ),
            );
        },
    };
    if let Err(e) = validate_text("device name", name.as_str(), 256) {
        return Err(e);
    }
    if let Err(e) = validate_text("device SoC", soc.as_str(), 256) {
        return Err(e);
    }
    Ok((name, soc))
}

/// The directory of a backend, as the gateway's state lists it.
pub open spec fn listed_runtime_dir(entries: Seq<JsonView>, backend: Seq<char>) -> Option<Seq<char>>
    decreases entries.len(),
{
    if entries.len() == 0 {
        None
    } else if text_member(entries[0], "id"@) == Some(backend) {
        text_member(entries[0], "runtime_dir"@)
    } else {
        listed_runtime_dir(entries.drop_first(), backend)
    }
}

pub open spec fn runtime_dir_in(state: JsonView, backend: Seq<char>) -> Option<Seq<char>> {
    match member(state, "available_backends"@) {
        Some(list) => match member(list, "data"@) {
            Some(JsonView::Array(entries)) => listed_runtime_dir(entries, backend),
            _ => None,
        },
        None => None,
    }
}

/// The directory of a backend, where its install record lies.
pub fn backend_runtime_dir(state: &Json, backend: &str) -> (r: Option<String>)
    ensures
        opt_text(r) == runtime_dir_in(state@, backend@),
{
    let list = match state.get("available_backends") {
        Some(list) => list,
        None => {
            return None;
        },
    };
    match list.get("data") {
        Some(Json::Array(entries)) => {
            let ghost all = views(entries@);
            proof {
                crate::json::lemma_array_view(*entries);
            }
            let mut i: usize = 0;
            assert(all.skip(0) =~= all);
            while i < entries.len()
                invariant
                    i <= entries@.len(),
                    all == views(entries@),
                    runtime_dir_in(state@, backend@) == listed_runtime_dir(
                        all.skip(i as int),
                        backend@,
                    ),
                decreases entries@.len() - i,
            {
                assert(all.skip(i as int).drop_first() =~= all.skip(i as int + 1));
                assert(all.skip(i as int)[0] == entries@[i as int]@);
                if let Some(id) = entries[i].get_text("id") {
                    if text_eq(id.as_str(), backend) {
                        return entries[i].get_text("runtime_dir");
                    }
                }
                i += 1;
            }
            None
        },
        _ => None,
    }
}

/// Where a runtime came from: its version and the command that built or installed it,
/// given or taken from its install record, which must be that of the backend.
pub open spec fn provenance(
    version: Option<Seq<char>>,
    command: Option<Seq<char>>,
    record: Option<JsonView>,
    backend: Seq<char>,
) -> Result<(Seq<char>, Seq<char>), Seq<char>> {
    let own = match record {
        Some(m) => if text_member(m, "backend"@) == Some(backend) {
            Some(m)
        } else {
            None
        },
        None => None,
    };
    let found_version = match version {
        Some(v) => Some(v),
        None => match own {
            Some(m) => text_member(m, "tag"@),
            None => None,
        },
    };
    let found_command = match command {
        Some(c) => Some(trimmed(c)),
        None => match own {
            Some(_) => Some("omniinfer backend install "@ + backend),
            None => None,
        },
    };
    match found_version {
        None => Err(
            "Runtime version is unavailable from managed install metadata. Pass --backend-version explicitly."@,
        ),
        Some(v) => match found_command {
            None => Err(
                "Build/install command is unavailable from managed install metadata. Pass --build-command explicitly."@,
            ),
            Some(c) => match either(
                text_refusal("runtime version"@, v, 256),
                command_refusal("runtime build command"@, c),
            ) {
                Some(reason) => Err(reason),
                None => Ok((v, c)),
            },
        },
    }
}

/// Keeps an install record that is that of the backend.
pub fn prebuilt_manifest(record: Option<Json>, backend: &str) -> (r: Option<Json>)
    ensures
        match (record, r) {
            (Some(m), Some(kept)) => kept@ == m@ && text_member(m@, "backend"@) == Some(backend@),
            (Some(m), None) => text_member(m@, "backend"@) != Some(backend@),
            (None, kept) => kept is None,
        },
{
    match record {
        Some(m) => match m.get_text("backend") {
            Some(id) => if text_eq(id.as_str(), backend) {
                Some(m)
            } else {
                None
            },
            None => None,
        },
        None => None,
    }
}

/// Where a runtime came from.
pub fn resolve_runtime_provenance(
    version: &Option<String>,
    command: &Option<String>,
    record: Option<Json>,
    backend: &str,
) -> (r: Result<(String, String), Failure>)
    ensures
        pair_result(r) == provenance(
            opt_text(*version),
            opt_text(*command),
            match record {
                Some(m) => Some(m@),
                None => None,
            },
            backend@,
        ),
{
    let own = prebuilt_manifest(record, backend);
    let found_version = match version {
        Some(v) => Some(v.as_str().to_owned()),
        None => match &own {
            Some(m) => m.get_text("tag"),
            None => None,
        },
    };
    let found_command = match command {
        Some(c) => Some(trim(c.as_str())),
        None => match &own {
            Some(_) => Some("omniinfer backend install ".to_owned().concat(backend)),
            None => None,
        },
    };
    let v = match found_version {
        Some(v) => v,
        None => {
            return Err(
                Failure::new(
                    "Runtime version is unavailable from managed install metadata. Pass --backend-version explicitly.",
                ),
            );
        },
    };
    let c = match found_command {
        Some(c) => c,
        None => {
            return Err(
                Failure::new(
                    "Build/install command is unavailable from managed install metadata. Pass --build-command explicitly.",
                ),
            );
        },
    };
    if let Err(e) = validate_text("runtime version", v.as_str(), 256) {
        return Err(e);
    }
    if let Err(e) = validated_command("runtime build command", c.as_str()) {
        return Err(e);
    }
    Ok((v, c))
}

} // verus!
