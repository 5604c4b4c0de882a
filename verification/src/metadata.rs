//! The Download Executor's data: best-effort metadata read from the external
//! tool's JSON output, and the outcome of each tool invocation. The process
//! invocation itself happens outside the library; the decisions about its
//! results are made here.

use vstd::prelude::*;

verus! {

use vstd::string::StringExecFns;

/// Best-effort description of one fetched medium. Missing numeric fields
/// default to 0, missing strings to sentinel placeholders.
pub struct Metadata {
    pub title: String,
    pub uploader: String,
    pub duration_seconds: u64,
    pub filesize_bytes: u64,
    pub file_extension: String,
}

/// Why a tool invocation's result was rejected.
#[derive(Debug)]
pub enum ExecError {
    /// The tool exited non-zero in metadata mode; `cause` is its stderr text.
    MetadataFetchFailed { cause: String },
    /// The tool's metadata output was not valid JSON.
    MetadataParseFailed,
    /// The tool exited non-zero in download mode; `cause` is its stderr text.
    DownloadFailed { cause: String },
}

/// Whether the text is a valid JSON document: a function of the text alone.
pub uninterp spec fn json_parses(text: Seq<char>) -> bool;

/// The string value at a top-level key of the JSON document `text`, `None`
/// where the text does not parse, the key is absent, or the value is no
/// string: a function of text and key alone.
pub uninterp spec fn json_str_field(text: Seq<char>, key: Seq<char>) -> Option<Seq<char>>;

/// The unsigned-integer value at a top-level key of the JSON document `text`,
/// under the same conditions: a function of text and key alone.
pub uninterp spec fn json_u64_field(text: Seq<char>, key: Seq<char>) -> Option<u64>;

/// Relies on serde_json's `from_str::<Value>`: whether parsing succeeds is
/// deterministic in the text.
#[verifier::external_body]
fn json_parses_check(text: &str) -> (r: bool)
    ensures
        r == json_parses(text@),
{
    serde_json::from_str::<serde_json::Value>(text).is_ok()
}

/// Relies on serde_json's `from_str`, `Value::get` and `Value::as_str`: the
/// string found at a top-level key is deterministic in text and key.
#[verifier::external_body]
fn json_str_field_get(text: &str, key: &str) -> (r: Option<String>)
    ensures
        match r {
            Some(v) => json_str_field(text@, key@) == Some(v@),
            None => json_str_field(text@, key@) is None,
        },
{
    match serde_json::from_str::<serde_json::Value>(text) {
        Ok(v) => v.get(key).and_then(|f| f.as_str()).map(|s| s.to_string()),
        Err(_) => None,
    }
}

/// Relies on serde_json's `from_str`, `Value::get` and `Value::as_u64`: the
/// unsigned integer found at a top-level key is deterministic in text and key.
#[verifier::external_body]
fn json_u64_field_get(text: &str, key: &str) -> (r: Option<u64>)
    ensures
        r == json_u64_field(text@, key@),
{
    match serde_json::from_str::<serde_json::Value>(text) {
        Ok(v) => v.get(key).and_then(|f| f.as_u64()),
        Err(_) => None,
    }
}

/// The field value, or the default where the field is missing.
pub open spec fn str_or(field: Option<Seq<char>>, default: Seq<char>) -> Seq<char> {
    match field {
        Some(v) => v,
        None => default,
    }
}

/// The field value, or zero where the field is missing.
pub open spec fn u64_or_zero(field: Option<u64>) -> u64 {
    match field {
        Some(v) => v,
        None => 0,
    }
}

/// Reads a `Metadata` from the tool's JSON output. Fails exactly on text
/// that is no valid JSON; on valid JSON every field is best-effort: a missing
/// or mistyped field falls back to its default ("Untitled", "Unknown", "mp4",
/// zero), never to a failure.
pub fn metadata_from_json(text: &str) -> (r: Result<Metadata, ExecError>)
    ensures
        match r {
            Ok(m) => {
                &&& json_parses(text@)
                &&& m.title@ == str_or(json_str_field(text@, "title"@), "Untitled"@)
                &&& m.uploader@ == str_or(json_str_field(text@, "uploader"@), "Unknown"@)
                &&& m.file_extension@ == str_or(json_str_field(text@, "ext"@), "mp4"@)
                &&& m.duration_seconds == u64_or_zero(json_u64_field(text@, "duration"@))
                &&& m.filesize_bytes == u64_or_zero(json_u64_field(text@, "filesize"@))
            },
            Err(e) => !json_parses(text@) && e is MetadataParseFailed,
        },
{
    if !json_parses_check(text) {
        return Err(ExecError::MetadataParseFailed);
    }
    let title = match json_str_field_get(text, "title") {
        Some(t) => t,
        None => "Untitled".to_owned(),
    };
    let uploader = match json_str_field_get(text, "uploader") {
        Some(u) => u,
        None => "Unknown".to_owned(),
    };
    let file_extension = match json_str_field_get(text, "ext") {
        Some(e) => e,
        None => "mp4".to_owned(),
    };
    let duration_seconds = match json_u64_field_get(text, "duration") {
        Some(d) => d,
        None => 0,
    };
    let filesize_bytes = match json_u64_field_get(text, "filesize") {
        Some(f) => f,
        None => 0,
    };
    Ok(Metadata { title, uploader, duration_seconds, filesize_bytes, file_extension })
}

/// The metadata step's outcome, decided from the tool's exit status and its
/// captured output: non-zero exit is a fetch failure carrying the stderr
/// text; on success the stdout text must parse as JSON.
pub fn metadata_outcome(exit_ok: bool, stdout: &str, stderr: &str) -> (r: Result<Metadata, ExecError>)
    ensures
        match r {
            Ok(m) => {
                &&& exit_ok
                &&& json_parses(stdout@)
                &&& m.title@ == str_or(json_str_field(stdout@, "title"@), "Untitled"@)
                &&& m.uploader@ == str_or(json_str_field(stdout@, "uploader"@), "Unknown"@)
                &&& m.file_extension@ == str_or(json_str_field(stdout@, "ext"@), "mp4"@)
                &&& m.duration_seconds == u64_or_zero(json_u64_field(stdout@, "duration"@))
                &&& m.filesize_bytes == u64_or_zero(json_u64_field(stdout@, "filesize"@))
            },
            Err(e) => match e {
                ExecError::MetadataFetchFailed { cause } => !exit_ok && cause@ == stderr@,
                ExecError::MetadataParseFailed => exit_ok && !json_parses(stdout@),
                ExecError::DownloadFailed { .. } => false,
            },
        },
{
    if !exit_ok {
        return Err(ExecError::MetadataFetchFailed { cause: stderr.to_owned() });
    }
    metadata_from_json(stdout)
}

/// The download step's outcome: non-zero exit is a download failure carrying
/// the stderr text.
pub fn download_outcome(exit_ok: bool, stderr: &str) -> (r: Result<(), ExecError>)
    ensures
        match r {
            Ok(_) => exit_ok,
            Err(e) => match e {
                ExecError::DownloadFailed { cause } => !exit_ok && cause@ == stderr@,
                _ => false,
            },
        },
{
    if exit_ok {
        Ok(())
    } else {
        Err(ExecError::DownloadFailed { cause: stderr.to_owned() })
    }
}

/// The output filename the tool is told to write: `<title>.<extension>`.
pub fn media_filename(meta: &Metadata) -> (r: String)
    ensures
        r@ == meta.title@ + "."@ + meta.file_extension@,
{
    let mut s = meta.title.clone();
    s.append(".");
    s.append(meta.file_extension.as_str());
    s
}

} // verus!
