//! The metadata of a video, as the downloader prints it in JSON.

use crate::naming::{title_prefix, title_prefix_of};
use crate::text::text_of;
use serde_json::Value;
use vstd::prelude::*;

verus! {

/// `serde_json::Value`, a JSON document. Nothing inside it is known here.
#[verifier::external_type_specification]
#[verifier::external_body]
pub struct ExValue(serde_json::Value);

/// `serde_json::Error`, the reason why bytes are no JSON. Nothing inside it
/// is known here.
#[verifier::external_type_specification]
#[verifier::external_body]
pub struct ExJsonError(serde_json::Error);

/// The JSON document that `serde_json::from_slice` reads out of `bytes`, if
/// it reads one.
pub uninterp spec fn json_document(bytes: Seq<u8>) -> Option<Value>;

/// What `doc` holds in strings: for every key of a JSON object under which
/// `Value::get` finds a JSON string, that string.
pub uninterp spec fn text_members(doc: Value) -> Map<Seq<char>, Seq<char>>;

/// The text that stands under `key` in `members`, if any does.
pub open spec fn member_text(members: Map<Seq<char>, Seq<char>>, key: Seq<char>) -> Option<
    Seq<char>,
> {
    if members.contains_key(key) {
        Some(members[key])
    } else {
        None
    }
}

/// Why no metadata could be had.
#[derive(Clone, Copy, Debug, PartialEq, Eq)]
pub enum MetadataError {
    /// The downloader did not end well.
    CommandFailed,
    /// What the downloader printed is no JSON.
    InvalidJson,
}

/// `serde_json::from_slice`, asked for a `Value`: the document that the
/// bytes write, or the crate's error where they write none. All that is
/// claimed is that the outcome depends on the bytes alone.
#[verifier::external_body]
fn json_from_slice(bytes: &[u8]) -> (r: Result<Value, serde_json::Error>)
    ensures
        match r {
            Ok(doc) => json_document(bytes@) == Some(doc),
            Err(_) => json_document(bytes@) is None,
        },
{
    serde_json::from_slice::<Value>(bytes)
}

/// `Value::get` with a string key, and of what it finds the text where that
/// is a `Value::String`. All that is claimed is that the outcome depends on
/// the document and the key alone.
#[verifier::external_body]
fn json_text_member(doc: &Value, key: &str) -> (r: Option<String>)
    ensures
        text_of(r) == member_text(text_members(*doc), key@),
{
    match doc.get(key) {
        Some(Value::String(text)) => Some(text.clone()),
        _ => None,
    }
}

/// Reads the metadata that the downloader printed: fails where the
/// downloader did not end well, and where its output is no JSON.
pub fn decode_metadata(success: bool, stdout: &[u8]) -> (r: Result<Value, MetadataError>)
    ensures
        !success ==> r == Err::<Value, MetadataError>(MetadataError::CommandFailed),
        success ==> match json_document(stdout@) {
            Some(doc) => r == Ok::<Value, MetadataError>(doc),
            None => r == Err::<Value, MetadataError>(MetadataError::InvalidJson),
        },
{
    if !success {
        return Err(MetadataError::CommandFailed);
    }
    match json_from_slice(stdout) {
        Ok(doc) => Ok(doc),
        Err(_) => Err(MetadataError::InvalidJson),
    }
}

/// The title of the video, where the metadata holds one as a string.
pub fn video_title(metadata: &Value) -> (title: Option<String>)
    ensures
        text_of(title) == member_text(text_members(*metadata), "title"@),
{
    json_text_member(metadata, "title")
}

/// The prefix that the title of the video gives to the names of its files;
/// nothing where the metadata holds no title.
pub fn make_title_prefix(metadata: &Value) -> (r: Option<String>)
    ensures
        text_of(r) == match member_text(text_members(*metadata), "title"@) {
            Some(title) => title_prefix_of(title),
            None => None,
        },
{
    match video_title(metadata) {
        Some(title) => title_prefix(title.as_str()),
        None => None,
    }
}

} // verus!
