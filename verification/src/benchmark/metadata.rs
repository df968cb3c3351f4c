//! What has to be declared for a benchmark, and what is refused.
use vstd::prelude::*;

use crate::benchmark::commands::{contains_unredacted_secret, exposes_any};
use crate::benchmark::ids::{catalog_id, valid_catalog_id};
use crate::failure::{checked, Failure};
use crate::outside::{parse_url, url_meaning, url_view, UrlParts};
use crate::text::bytes::byte_len;
use crate::text::chars::{chars_of, control, is_control, text_eq};
use crate::text::compose::{has_item, join, joined, no_texts, opt_text, put, texts};
use crate::text::number::{decimal, show};
use crate::text::pieces::words_of;
use crate::text::trim::{trim, trimmed};

verus! {

/// What is declared for a benchmark.
#[derive(Debug)]
pub struct BenchRunArgs {
    pub benchmark_id: Option<String>,
    pub catalog_model_id: String,
    pub model_name: Option<String>,
    pub model_format: String,
    pub quantization: String,
    pub model_url: String,
    pub device_name: String,
    pub soc: String,
    pub backend_id: Option<String>,
    pub backend_name: Option<String>,
    pub backend_version: String,
    pub build_command: String,
    pub run_command: Option<String>,
    pub baseline: bool,
    pub optimizations: Vec<String>,
    pub context_size: Option<u32>,
    pub batch_size: Option<u32>,
    pub prompt: Option<String>,
    pub max_tokens: u32,
    pub timeout_seconds: u32,
    pub submitter_name: String,
    pub organization: Option<String>,
    pub source_url: Option<String>,
    pub notes: Option<String>,
}

/// The first of two reasons to refuse something.
pub open spec fn either(a: Option<Seq<char>>, b: Option<Seq<char>>) -> Option<Seq<char>> {
    match a {
        Some(reason) => Some(reason),
        None => b,
    }
}

/// A control character that a text may not have; line ends and tabs are none.
pub open spec fn forbidden(c: char) -> bool {
    control(c) && c != '\n' && c != '\r' && c != '\t'
}

pub open spec fn has_forbidden(s: Seq<char>) -> bool {
    exists|i: int| 0 <= i < s.len() && forbidden(#[trigger] s[i])
}

/// Why a text is refused.
pub open spec fn text_refusal(label: Seq<char>, value: Seq<char>, max: nat) -> Option<Seq<char>> {
    let text = trimmed(value);
    if text.len() == 0 {
        Some(label + " must not be empty."@)
    } else if text.len() > max {
        Some(label + " exceeds "@ + decimal(max) + " characters."@)
    } else if has_forbidden(text) {
        Some(label + " contains a control character."@)
    } else {
        None
    }
}

/// Why a text is refused where it is given.
pub open spec fn opt_refusal(label: Seq<char>, value: Option<Seq<char>>, max: nat) -> Option<
    Seq<char>,
> {
    match value {
        Some(v) => text_refusal(label, v, max),
        None => None,
    }
}

/// Why a text is refused that has to be a public address, given what it means as a URL.
pub open spec fn url_refusal(
    label: Seq<char>,
    meaning: Option<
        (Seq<char>, Option<Seq<char>>, Seq<char>, Option<Seq<char>>, Option<Seq<char>>),
    >,
) -> Option<Seq<char>> {
    match meaning {
        None => Some(label + " is not a valid URL"@),
        Some((scheme, host, username, password, fragment)) => if scheme != "https"@ || host is None
            || username.len() > 0 || password is Some || fragment is Some {
            Some(label + " must be a public HTTPS URL without credentials or a fragment."@)
        } else {
            None
        },
    }
}

/// Why a text is refused that is an address of limited length.
pub open spec fn address_refusal(label: Seq<char>, value: Seq<char>) -> Option<Seq<char>> {
    either(
        url_refusal(label, url_meaning(value)),
        if vstd::utf8::encode_utf8(value).len() > 2048 {
            Some(label + " exceeds 2048 characters."@)
        } else {
            None
        },
    )
}

/// Why a command is refused.
pub open spec fn command_refusal(label: Seq<char>, command: Seq<char>) -> Option<Seq<char>> {
    either(
        text_refusal(label, command, 16384),
        if exposes_any(words_of(command)) {
            Some(label + " contains an unredacted credential value."@)
        } else {
            None
        },
    )
}

/// The formats that a model can have.
pub open spec fn model_formats() -> Seq<Seq<char>> {
    Seq::<Seq<char>>::empty()
        .push("GGUF"@)
        .push("MLX"@)
        .push("Safetensors"@)
        .push("MNN"@)
        .push("TFLite"@)
        .push("LiteRT"@)
        .push("LITERTLM"@)
        .push("ONNX"@)
        .push("ExecuTorch"@)
        .push("Other"@)
}

pub open spec fn format_refusal(format: Seq<char>) -> Option<Seq<char>> {
    if model_formats().contains(format) {
        None
    } else {
        Some("--format must be one of: "@ + joined(model_formats(), ", "@))
    }
}

pub open spec fn catalog_refusal(label: Seq<char>, value: Seq<char>) -> Option<Seq<char>> {
    if catalog_id(value) {
        None
    } else {
        Some(label + " must be a 1-128 character catalog slug."@)
    }
}

/// Why a declaration of optimizations is refused: it has to be made, in one way.
pub open spec fn mode_refusal(baseline: bool, optimizations: nat) -> Option<Seq<char>> {
    if baseline && optimizations > 0 {
        Some("--baseline conflicts with --optimization."@)
    } else if !baseline && optimizations == 0 {
        Some(
            "Explicit optimization declaration is required. Pass --baseline or at least one --optimization <slug>."@,
        )
    } else {
        None
    }
}

pub open spec fn required_texts_refusal(a: BenchRunArgs) -> Option<Seq<char>> {
    either(
        text_refusal("--catalog-model-id"@, a.catalog_model_id@, 128),
        either(
            text_refusal("--quantization"@, a.quantization@, 256),
            either(
                text_refusal("--device-name"@, a.device_name@, 256),
                either(
                    text_refusal("--soc"@, a.soc@, 256),
                    either(
                        text_refusal("--backend-version"@, a.backend_version@, 256),
                        text_refusal("--submitter-name"@, a.submitter_name@, 256),
                    ),
                ),
            ),
        ),
    )
}

pub open spec fn addresses_refusal(a: BenchRunArgs) -> Option<Seq<char>> {
    either(
        address_refusal("--model-url"@, a.model_url@),
        match opt_text(a.source_url) {
            Some(url) => address_refusal("--source-url"@, url),
            None => None,
        },
    )
}

pub open spec fn optional_texts_refusal(a: BenchRunArgs) -> Option<Seq<char>> {
    either(
        opt_refusal("--model-name"@, opt_text(a.model_name), 256),
        either(
            opt_refusal("--backend-id"@, opt_text(a.backend_id), 256),
            either(
                opt_refusal("--backend-name"@, opt_text(a.backend_name), 256),
                either(
                    opt_refusal("--organization"@, opt_text(a.organization), 256),
                    opt_refusal("--notes"@, opt_text(a.notes), 2048),
                ),
            ),
        ),
    )
}

pub open spec fn slugs_refusal(a: BenchRunArgs) -> Option<Seq<char>> {
    either(
        catalog_refusal("--catalog-model-id"@, a.catalog_model_id@),
        match opt_text(a.backend_id) {
            Some(id) => catalog_refusal("--backend-id"@, id),
            None => None,
        },
    )
}

/// Why what is declared for a benchmark is refused.
pub open spec fn metadata_refusal(a: BenchRunArgs) -> Option<Seq<char>> {
    either(
        required_texts_refusal(a),
        either(
            format_refusal(a.model_format@),
            either(
                addresses_refusal(a),
                either(
                    optional_texts_refusal(a),
                    either(
                        command_refusal("--build-command"@, a.build_command@),
                        either(
                            slugs_refusal(a),
                            mode_refusal(a.baseline, a.optimizations@.len()),
                        ),
                    ),
                ),
            ),
        ),
    )
}

/// Refuses a text that is empty, too long, or has control characters.
pub fn validate_text(label: &str, value: &str, max_chars: usize) -> (r: Result<(), Failure>)
    ensures
        checked(r, text_refusal(label@, value@, max_chars as nat)),
{
    let text = trim(value);
    let v = chars_of(text.as_str());
    if v.len() == 0 {
        return Err(Failure::about(label, " must not be empty."));
    }
    if v.len() > max_chars {
        let message = label.to_owned().concat(" exceeds ").concat(
            show(max_chars as u64).as_str(),
        ).concat(" characters.");
        return Err(Failure { message });
    }
    let mut i: usize = 0;
    while i < v.len()
        invariant
            i <= v@.len(),
            v@ == trimmed(value@),
            0 < v@.len() <= max_chars,
            forall|j: int| 0 <= j < i ==> !forbidden(#[trigger] v@[j]),
        decreases v@.len() - i,
    {
        let c = v[i];
        if is_control(c) && c != '\n' && c != '\r' && c != '\t' {
            assert(forbidden(v@[i as int]));
            return Err(Failure::about(label, " contains a control character."));
        }
        i += 1;
    }
    Ok(())
}

fn validate_opt(label: &str, value: &Option<String>, max_chars: usize) -> (r: Result<(), Failure>)
    ensures
        checked(r, opt_refusal(label@, opt_text(*value), max_chars as nat)),
{
    match value {
        Some(v) => validate_text(label, v.as_str(), max_chars),
        None => Ok(()),
    }
}

/// Refuses the parts of a URL that is no public address; `None` stands for a text that
/// is no URL.
pub fn check_url_parts(label: &str, parts: &Option<UrlParts>) -> (r: Result<(), Failure>)
    ensures
        checked(r, url_refusal(label@, url_view(*parts))),
{
    match parts {
        None => Err(Failure::about(label, " is not a valid URL")),
        Some(u) => {
            if !text_eq(u.scheme.as_str(), "https") || u.host.is_none()
                || !u.username.as_str().is_empty() || u.password.is_some()
                || u.fragment.is_some() {
                return Err(
                    Failure::about(
                        label,
                        " must be a public HTTPS URL without credentials or a fragment.",
                    ),
                );
            }
            Ok(())
        },
    }
}

/// Refuses a text that is no public address.
pub fn validate_https_url(label: &str, value: &str) -> (r: Result<(), Failure>)
    ensures
        checked(r, url_refusal(label@, url_meaning(value@))),
{
    let parts = parse_url(value);
    check_url_parts(label, &parts)
}

fn validate_address(label: &str, value: &str) -> (r: Result<(), Failure>)
    ensures
        checked(r, address_refusal(label@, value@)),
{
    if let Err(e) = validate_https_url(label, value) {
        return Err(e);
    }
    if byte_len(value) > 2048 {
        return Err(Failure::about(label, " exceeds 2048 characters."));
    }
    Ok(())
}

/// Refuses a command that is no proper text or gives a secret away; gives the command
/// without the white space around it.
pub fn validated_command(label: &str, command: &str) -> (r: Result<String, Failure>)
    ensures
        match r {
            Ok(c) => command_refusal(label@, command@) is None && c@ == trimmed(command@),
            Err(e) => command_refusal(label@, command@) == Some(e@),
        },
{
    if let Err(e) = validate_text(label, command, 16384) {
        return Err(e);
    }
    if contains_unredacted_secret(command) {
        return Err(Failure::about(label, " contains an unredacted credential value."));
    }
    Ok(trim(command))
}

fn formats() -> (r: Vec<String>)
    ensures
        texts(r@) == model_formats(),
{
    let mut r = no_texts();
    put(&mut r, "GGUF");
    put(&mut r, "MLX");
    put(&mut r, "Safetensors");
    put(&mut r, "MNN");
    put(&mut r, "TFLite");
    put(&mut r, "LiteRT");
    put(&mut r, "LITERTLM");
    put(&mut r, "ONNX");
    put(&mut r, "ExecuTorch");
    put(&mut r, "Other");
    r
}

fn validate_required_texts(a: &BenchRunArgs) -> (r: Result<(), Failure>)
    ensures
        checked(r, required_texts_refusal(*a)),
{
    if let Err(e) = validate_text("--catalog-model-id", a.catalog_model_id.as_str(), 128) {
        return Err(e);
    }
    if let Err(e) = validate_text("--quantization", a.quantization.as_str(), 256) {
        return Err(e);
    }
    if let Err(e) = validate_text("--device-name", a.device_name.as_str(), 256) {
        return Err(e);
    }
    if let Err(e) = validate_text("--soc", a.soc.as_str(), 256) {
        return Err(e);
    }
    if let Err(e) = validate_text("--backend-version", a.backend_version.as_str(), 256) {
        return Err(e);
    }
    validate_text("--submitter-name", a.submitter_name.as_str(), 256)
}

fn validate_addresses(a: &BenchRunArgs) -> (r: Result<(), Failure>)
    ensures
        checked(r, addresses_refusal(*a)),
{
    if let Err(e) = validate_address("--model-url", a.model_url.as_str()) {
        return Err(e);
    }
    match &a.source_url {
        Some(url) => validate_address("--source-url", url.as_str()),
        None => Ok(()),
    }
}

fn validate_optional_texts(a: &BenchRunArgs) -> (r: Result<(), Failure>)
    ensures
        checked(r, optional_texts_refusal(*a)),
{
    if let Err(e) = validate_opt("--model-name", &a.model_name, 256) {
        return Err(e);
    }
    if let Err(e) = validate_opt("--backend-id", &a.backend_id, 256) {
        return Err(e);
    }
    if let Err(e) = validate_opt("--backend-name", &a.backend_name, 256) {
        return Err(e);
    }
    if let Err(e) = validate_opt("--organization", &a.organization, 256) {
        return Err(e);
    }
    validate_opt("--notes", &a.notes, 2048)
}

fn validate_slug(label: &str, value: &str) -> (r: Result<(), Failure>)
    ensures
        checked(r, catalog_refusal(label@, value@)),
{
    if valid_catalog_id(value) {
        Ok(())
    } else {
        Err(Failure::about(label, " must be a 1-128 character catalog slug."))
    }
}

/// Refuses what is declared for a benchmark where it is incomplete or contradicts
/// itself.
pub fn validate_metadata(a: &BenchRunArgs) -> (r: Result<(), Failure>)
    ensures
        checked(r, metadata_refusal(*a)),
{
    if let Err(e) = validate_required_texts(a) {
        return Err(e);
    }
    let known = formats();
    if !has_item(&known, a.model_format.as_str()) {
        return Err(
            Failure::about("--format must be one of: ", join(&known, ", ").as_str()),
        );
    }
    if let Err(e) = validate_addresses(a) {
        return Err(e);
    }
    if let Err(e) = validate_optional_texts(a) {
        return Err(e);
    }
    if let Err(e) = validated_command("--build-command", a.build_command.as_str()) {
        return Err(e);
    }
    if let Err(e) = validate_slug("--catalog-model-id", a.catalog_model_id.as_str()) {
        return Err(e);
    }
    if let Some(id) = &a.backend_id {
        if let Err(e) = validate_slug("--backend-id", id.as_str()) {
            return Err(e);
        }
    }
    if a.baseline && a.optimizations.len() > 0 {
        return Err(Failure::new("--baseline conflicts with --optimization."));
    }
    if !a.baseline && a.optimizations.len() == 0 {
        return Err(
            Failure::new(
                "Explicit optimization declaration is required. Pass --baseline or at least one --optimization <slug>.",
            ),
        );
    }
    Ok(())
}

/// What is accepted for a benchmark names a model of the catalog, declares its
/// optimizations in one way, and gives no secret away in its build command.
pub proof fn accepted_metadata_is_complete(a: BenchRunArgs)
    ensures
        metadata_refusal(a) is None ==> catalog_id(a.catalog_model_id@),
        metadata_refusal(a) is None ==> (a.baseline <==> a.optimizations@.len() == 0),
        metadata_refusal(a) is None ==> !exposes_any(words_of(a.build_command@)),
        metadata_refusal(a) is None ==> model_formats().contains(a.model_format@),
{
}

} // verus!
