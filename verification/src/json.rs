//! The JSON side of the protocol. Payloads travel through the library as
//! JSON text in bytes; reading and writing that text is the work of
//! `serde_json` and `lsp_types`, reached through the functions of this
//! module. Their contracts are taken on trust: each names the result of the
//! outside call as a function of the bytes and values handed to it.

use vstd::prelude::*;

verus! {

/// A completion candidate as `lsp_types` defines it, carried through
/// unread.
#[verifier::external_type_specification]
#[verifier::external_body]
pub struct ExCompletionItem(lsp_types::CompletionItem);

/// A completion reply in either of its two shapes.
#[derive(Debug)]
pub enum CompletionReply {
    /// A bare list of candidates.
    Array(Vec<lsp_types::CompletionItem>),
    /// A list of candidates with a flag that says whether it was cut short.
    List { is_incomplete: bool, items: Vec<lsp_types::CompletionItem> },
}

/// A line that the server asks the client to log.
#[derive(Debug)]
pub struct LogMessage {
    /// The kind of message, as `lsp_types` prints it.
    pub kind: String,
    /// The text to log.
    pub message: String,
}

/// The unsigned integer under `key` in the JSON object `body`, as
/// `serde_json` reads it; `None` where `body` is no JSON text or no object,
/// or holds no such number there.
pub uninterp spec fn json_member_u64(body: Seq<u8>, key: Seq<char>) -> Option<u64>;

/// The string under `key` in the JSON object `body`, as `serde_json` reads
/// it.
pub uninterp spec fn json_member_string(body: Seq<u8>, key: Seq<char>) -> Option<Seq<char>>;

/// The JSON text of the member under `key` in the JSON object `body`, as
/// `serde_json` reads and writes it.
pub uninterp spec fn json_member(body: Seq<u8>, key: Seq<char>) -> Option<Seq<u8>>;

/// The JSON text of a string, as `serde_json` writes it.
pub uninterp spec fn json_string(s: Seq<char>) -> Option<Seq<u8>>;

/// The JSON text of the object with the given members, each a key and the
/// JSON text of its value, as `serde_json` writes it.
pub uninterp spec fn json_object(members: Seq<(Seq<char>, Seq<u8>)>) -> Option<Seq<u8>>;

/// The JSON text of the handshake parameters, as `lsp_types` lays them out.
pub uninterp spec fn json_initialize_params(
    process_id: u32,
    root_uri: Seq<char>,
    folder_name: Seq<char>,
) -> Option<Seq<u8>>;

/// The JSON text of the parameters that announce an opened document.
pub uninterp spec fn json_did_open_params(
    uri: Seq<char>,
    language_id: Seq<char>,
    version: i32,
    text: Seq<char>,
) -> Option<Seq<u8>>;

/// The JSON text of the parameters that replace a document's whole text.
pub uninterp spec fn json_did_change_params(uri: Seq<char>, version: i32, text: Seq<char>) -> Option<
    Seq<u8>,
>;

/// The JSON text of the parameters that ask for completions at a position.
pub uninterp spec fn json_completion_params(uri: Seq<char>, line: u32, character: u32) -> Option<
    Seq<u8>,
>;

/// The completion reply that the JSON text `body` holds, as `lsp_types`
/// reads it.
pub uninterp spec fn json_completion_reply(body: Seq<u8>) -> Option<CompletionReply>;

/// The kind and the text of the log message that the JSON text `params`
/// holds, as `lsp_types` reads it.
pub uninterp spec fn json_log_message(params: Seq<u8>) -> Option<(Seq<char>, Seq<char>)>;

/// The bytes that an optional buffer holds.
pub open spec fn bytes_view(o: Option<Vec<u8>>) -> Option<Seq<u8>> {
    match o {
        Some(v) => Some(v@),
        None => None,
    }
}

/// The characters that an optional string holds.
pub open spec fn string_view(o: Option<String>) -> Option<Seq<char>> {
    match o {
        Some(s) => Some(s@),
        None => None,
    }
}

/// The kind and text that an optional log message holds.
pub open spec fn log_view(o: Option<LogMessage>) -> Option<(Seq<char>, Seq<char>)> {
    match o {
        Some(m) => Some((m.kind@, m.message@)),
        None => None,
    }
}

/// The members of an object, each with its key and value viewed.
pub open spec fn members_view(members: Seq<(String, Vec<u8>)>) -> Seq<(Seq<char>, Seq<u8>)> {
    members.map_values(|m: (String, Vec<u8>)| (m.0@, m.1@))
}

/// Calls `serde_json::from_slice` for a `Value`, then `Value::get` and
/// `Value::as_u64`. Trusted: the result is the named function of the two
/// arguments.
#[verifier::external_body]
pub(crate) fn member_u64(body: &[u8], key: &str) -> (r: Option<u64>)
    ensures
        r == json_member_u64(body@, key@),
{
    serde_json::from_slice::<serde_json::Value>(body).ok()?.get(key)?.as_u64()
}

/// Calls `serde_json::from_slice` for a `Value`, then `Value::get` and
/// `Value::as_str`. Trusted: the result is the named function of the two
/// arguments.
#[verifier::external_body]
pub(crate) fn member_string(body: &[u8], key: &str) -> (r: Option<String>)
    ensures
        string_view(r) == json_member_string(body@, key@),
{
    serde_json::from_slice::<serde_json::Value>(body).ok()?.get(key)?.as_str().map(String::from)
}

/// Calls `serde_json::from_slice` for a `Value`, then `Value::get`, and
/// `serde_json::to_vec` on the member. Trusted: the result is the named
/// function of the two arguments.
#[verifier::external_body]
pub(crate) fn member_bytes(body: &[u8], key: &str) -> (r: Option<Vec<u8>>)
    ensures
        bytes_view(r) == json_member(body@, key@),
{
    serde_json::to_vec(serde_json::from_slice::<serde_json::Value>(body).ok()?.get(key)?).ok()
}

/// Calls `serde_json::to_vec` on a string. Trusted: the result is the named
/// function of the string.
#[verifier::external_body]
pub(crate) fn string_bytes(s: &str) -> (r: Option<Vec<u8>>)
    ensures
        bytes_view(r) == json_string(s@),
{
    serde_json::to_vec(s).ok()
}

/// Builds a `serde_json::Map` with `Map::insert`, reading each value with
/// `serde_json::from_slice`, and writes it with `serde_json::to_vec`.
/// Trusted: the result is the named function of the members.
#[verifier::external_body]
pub(crate) fn object_bytes(members: &Vec<(String, Vec<u8>)>) -> (r: Option<Vec<u8>>)
    ensures
        bytes_view(r) == json_object(members_view(members@)),
{
    let mut map = serde_json::Map::new();
    for (key, text) in members.iter() {
        map.insert(key.clone(), serde_json::from_slice::<serde_json::Value>(text).ok()?);
    }
    serde_json::to_vec(&serde_json::Value::Object(map)).ok()
}

/// Fills an `lsp_types::InitializeParams` with the process id and one
/// workspace folder, whose URI `Url::parse` reads, and writes it with
/// `serde_json::to_vec`. Trusted: the result is the named function of the
/// arguments.
#[verifier::external_body]
pub(crate) fn initialize_params(process_id: u32, root_uri: &str, folder_name: &str) -> (r: Option<
    Vec<u8>,
>)
    ensures
        bytes_view(r) == json_initialize_params(process_id, root_uri@, folder_name@),
{
    let uri = lsp_types::Url::parse(root_uri).ok()?;
    let folder = lsp_types::WorkspaceFolder { uri, name: folder_name.to_string() };
    let params = lsp_types::InitializeParams {
        process_id: Some(process_id),
        workspace_folders: Some(vec![folder]),
        ..Default::default()
    };
    serde_json::to_vec(&params).ok()
}

/// Fills an `lsp_types::DidOpenTextDocumentParams`, whose URI `Url::parse`
/// reads, and writes it with `serde_json::to_vec`. Trusted: the result is
/// the named function of the arguments.
#[verifier::external_body]
pub(crate) fn did_open_params(uri: &str, language_id: &str, version: i32, text: &str) -> (r:
    Option<Vec<u8>>)
    ensures
        bytes_view(r) == json_did_open_params(uri@, language_id@, version, text@),
{
    let uri = lsp_types::Url::parse(uri).ok()?;
    let item = lsp_types::TextDocumentItem::new(uri, language_id.to_string(), version, text.to_string());
    serde_json::to_vec(&lsp_types::DidOpenTextDocumentParams { text_document: item }).ok()
}

/// Fills an `lsp_types::DidChangeTextDocumentParams` with one change that
/// carries the whole text and no range, and writes it with
/// `serde_json::to_vec`. Trusted: the result is the named function of the
/// arguments.
#[verifier::external_body]
pub(crate) fn did_change_params(uri: &str, version: i32, text: &str) -> (r: Option<Vec<u8>>)
    ensures
        bytes_view(r) == json_did_change_params(uri@, version, text@),
{
    let uri = lsp_types::Url::parse(uri).ok()?;
    let change = lsp_types::TextDocumentContentChangeEvent {
        range: None,
        range_length: None,
        text: text.to_string(),
    };
    let params = lsp_types::DidChangeTextDocumentParams {
        text_document: lsp_types::VersionedTextDocumentIdentifier::new(uri, version),
        content_changes: vec![change],
    };
    serde_json::to_vec(&params).ok()
}

/// Fills an `lsp_types::CompletionParams` with the document and the
/// position and nothing else, and writes it with `serde_json::to_vec`.
/// Trusted: the result is the named function of the arguments.
#[verifier::external_body]
pub(crate) fn completion_params(uri: &str, line: u32, character: u32) -> (r: Option<Vec<u8>>)
    ensures
        bytes_view(r) == json_completion_params(uri@, line, character),
{
    let uri = lsp_types::Url::parse(uri).ok()?;
    let params = lsp_types::CompletionParams {
        text_document_position: lsp_types::TextDocumentPositionParams {
            text_document: lsp_types::TextDocumentIdentifier::new(uri),
            position: lsp_types::Position::new(line, character),
        },
        work_done_progress_params: Default::default(),
        partial_result_params: Default::default(),
        context: None,
    };
    serde_json::to_vec(&params).ok()
}

/// Calls `serde_json::from_slice` for an `lsp_types::CompletionResponse`
/// and moves the items of either variant over. Trusted: the result is the
/// named function of the bytes.
#[verifier::external_body]
pub(crate) fn completion_reply(body: &[u8]) -> (r: Option<CompletionReply>)
    ensures
        r == json_completion_reply(body@),
{
    match serde_json::from_slice::<lsp_types::CompletionResponse>(body).ok()? {
        lsp_types::CompletionResponse::Array(items) => Some(CompletionReply::Array(items)),
        lsp_types::CompletionResponse::List(list) => Some(
            CompletionReply::List { is_incomplete: list.is_incomplete, items: list.items },
        ),
    }
}

/// Calls `serde_json::from_slice` for an `lsp_types::LogMessageParams` and
/// prints its message type with `Debug`. Trusted: the result is the named
/// function of the bytes.
#[verifier::external_body]
pub(crate) fn log_message(params: &[u8]) -> (r: Option<LogMessage>)
    ensures
        log_view(r) == json_log_message(params@),
{
    let p = serde_json::from_slice::<lsp_types::LogMessageParams>(params).ok()?;
    Some(LogMessage { kind: format!("{:?}", p.typ), message: p.message })
}

} // verus!
