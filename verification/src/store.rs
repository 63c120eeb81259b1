//! The record store's rules: which key a new record gets, how a record is
//! written as JSON, and which reply each outcome of the database earns.

use vstd::prelude::*;
use rand::Rng;
use crate::bytes::append;
use crate::config::host_text;
use crate::config::push_host;
use crate::decimal::decimal;
use crate::decimal::push_decimal;
use crate::routes::key_text;
use crate::routes::lemma_key_round_trip;
use crate::routes::method_get;
use crate::routes::path_get;
use crate::routes::push_key;
use crate::routes::routed;
use crate::routes::Route;

verus! {

/// Smallest key handed to a new record.
pub const KEY_MIN: i32 = 1;

/// Largest key handed to a new record.
pub const KEY_MAX: i32 = 100000000;

/// Status of a request that was served.
pub const STATUS_OK: u16 = 200;

/// Status of a write that the database refused.
pub const STATUS_NO_CONTENT: u16 = 204;

/// Status of a write whose body is no record.
pub const STATUS_BAD_REQUEST: u16 = 400;

/// Status of a read whose key is absent, and of a path that is not served.
pub const STATUS_NOT_FOUND: u16 = 404;

/// Status of a path that is served, but not under the request's method.
pub const STATUS_METHOD_NOT_ALLOWED: u16 = 405;

/// Status of a read that found bytes which are no record.
pub const STATUS_INTERNAL_ERROR: u16 = 500;

/// The host on which the store serves: `192.168.1.203`.
pub const SERVER_HOST: u32 = 0xc0a801cb;

/// The port on which the store serves.
pub const SERVER_PORT: u16 = 3690;

/// The line that tells where the store serves: `ZERO Node Live :: http://`,
/// the host, a colon and the port.
pub open spec fn banner_text(host: u32, port: u16) -> Seq<u8> {
    seq![
        0x5au8,
        0x45u8,
        0x52u8,
        0x4fu8,
        0x20u8,
        0x4eu8,
        0x6fu8,
        0x64u8,
        0x65u8,
        0x20u8,
        0x4cu8,
        0x69u8,
        0x76u8,
        0x65u8,
        0x20u8,
        0x3au8,
        0x3au8,
        0x20u8,
        0x68u8,
        0x74u8,
        0x74u8,
        0x70u8,
        0x3au8,
        0x2fu8,
        0x2fu8,
    ] + host_text(host) + seq![0x3au8] + decimal(port as nat)
}

/// The line that tells where the store serves.
pub fn server_banner(host: u32, port: u16) -> (line: Vec<u8>)
    ensures
        line@ == banner_text(host, port),
{
    let mut out: Vec<u8> = vec![
        0x5au8,
        0x45u8,
        0x52u8,
        0x4fu8,
        0x20u8,
        0x4eu8,
        0x6fu8,
        0x64u8,
        0x65u8,
        0x20u8,
        0x4cu8,
        0x69u8,
        0x76u8,
        0x65u8,
        0x20u8,
        0x3au8,
        0x3au8,
        0x20u8,
        0x68u8,
        0x74u8,
        0x74u8,
        0x70u8,
        0x3au8,
        0x2fu8,
        0x2fu8,
    ];
    push_host(&mut out, host);
    out.push(0x3au8);
    push_decimal(&mut out, port as u64);
    assert(out@ =~= banner_text(host, port));
    out
}

/// A stored record: one text field named `data`.
#[derive(Debug)]
pub struct Transaction {
    data: String,
}

impl View for Transaction {
    type V = Seq<char>;

    closed spec fn view(&self) -> Seq<char> {
        self.data@
    }
}

impl Transaction {
    /// A record that holds `data`.
    pub fn new(data: String) -> (record: Transaction)
        ensures
            record@ == data@,
    {
        Transaction { data }
    }

    /// The text that the record holds.
    pub fn data(&self) -> (text: &String)
        ensures
            text@ == self@,
    {
        &self.data
    }
}

/// What `serde_json` writes for a string: the JSON string literal, quotes and
/// escapes included, as UTF-8.
pub uninterp spec fn json_string(text: Seq<char>) -> Seq<u8>;

/// Calls `serde_json::to_vec` on a string. The contract names the bytes, and
/// claims that they always come back: the call writes a string into a
/// vector, which neither the string nor the vector can refuse.
#[verifier::external_body]
fn encode_json_string(text: &String) -> (literal: Option<Vec<u8>>)
    ensures
        literal.deep_view() == Some(json_string(text@)),
{
    serde_json::to_vec(text.as_str()).ok()
}

/// Calls `rand::Rng::gen_range` on the thread's generator with the closed
/// range from `min` to `max`. The range must not be empty, since the call
/// panics on an empty one; the result lies in it.
#[verifier::external_body]
fn generate_random_index(min: i32, max: i32) -> (index: i32)
    requires
        min <= max,
    ensures
        min <= index <= max,
{
    rand::thread_rng().gen_range(min..=max)
}

/// A key for a new record, drawn at random between `KEY_MIN` and `KEY_MAX`.
pub fn generate_key() -> (key: i32)
    ensures
        KEY_MIN <= key <= KEY_MAX,
{
    generate_random_index(KEY_MIN, KEY_MAX)
}

/// The bytes `{"data":`, which open a record written without spaces.
pub open spec fn compact_open() -> Seq<u8> {
    seq![0x7bu8, 0x22u8, 0x64u8, 0x61u8, 0x74u8, 0x61u8, 0x22u8, 0x3au8]
}

/// The bytes that open a record written for a reader: a brace, a line break,
/// two spaces, `"data":` and one space.
pub open spec fn pretty_open() -> Seq<u8> {
    seq![
        0x7bu8,
        0x0au8,
        0x20u8,
        0x20u8,
        0x22u8,
        0x64u8,
        0x61u8,
        0x74u8,
        0x61u8,
        0x22u8,
        0x3au8,
        0x20u8,
    ]
}

/// A record without spaces around the JSON literal of its text.
pub open spec fn compact_record(literal: Seq<u8>) -> Seq<u8> {
    compact_open() + literal + seq![0x7du8]
}

/// A record for a reader around the JSON literal of its text: the field on a
/// line of its own, indented by two spaces.
pub open spec fn pretty_record(literal: Seq<u8>) -> Seq<u8> {
    pretty_open() + literal + seq![0x0au8, 0x7du8]
}

/// Frames the JSON literal of a record's text as the record is stored.
pub fn frame_compact(literal: &Vec<u8>) -> (record: Vec<u8>)
    ensures
        record@ == compact_record(literal@),
{
    let mut out: Vec<u8> = vec![0x7bu8, 0x22u8, 0x64u8, 0x61u8, 0x74u8, 0x61u8, 0x22u8, 0x3au8];
    assert(out@ =~= compact_open());
    append(&mut out, literal);
    out.push(0x7du8);
    assert(out@ =~= compact_record(literal@));
    out
}

/// Frames the JSON literal of a record's text as the record is shown.
pub fn frame_pretty(literal: &Vec<u8>) -> (record: Vec<u8>)
    ensures
        record@ == pretty_record(literal@),
{
    let mut out: Vec<u8> = vec![
        0x7bu8,
        0x0au8,
        0x20u8,
        0x20u8,
        0x22u8,
        0x64u8,
        0x61u8,
        0x74u8,
        0x61u8,
        0x22u8,
        0x3au8,
        0x20u8,
    ];
    assert(out@ =~= pretty_open());
    append(&mut out, literal);
    out.push(0x0au8);
    out.push(0x7du8);
    assert(out@ =~= pretty_record(literal@));
    out
}

/// The bytes under which a record is stored. They always come back.
pub fn record_bytes(record: &Transaction) -> (bytes: Option<Vec<u8>>)
    ensures
        bytes.deep_view() == Some(stored_form(record@)),
{
    match encode_json_string(&record.data) {
        Some(literal) => Some(frame_compact(&literal)),
        None => None,
    }
}

/// The body that shows a record to a reader. It always comes back.
pub fn bytes_to_json(record: &Transaction) -> (body: Option<Vec<u8>>)
    ensures
        body.deep_view() == Some(shown_form(record@)),
{
    match encode_json_string(&record.data) {
        Some(literal) => Some(frame_pretty(&literal)),
        None => None,
    }
}

/// What a write puts into the database: a key drawn for the record, and the
/// bytes under which the record is stored. They always come back.
pub fn new_entry(record: &Transaction) -> (entry: Option<(i32, Vec<u8>)>)
    ensures
        entry matches Some((key, bytes)) && KEY_MIN <= key <= KEY_MAX && bytes@ == stored_form(
            record@,
        ),
{
    match record_bytes(record) {
        Some(bytes) => Some((generate_key(), bytes)),
        None => None,
    }
}

/// The bytes under which a record with this text is stored: the record
/// without spaces around the JSON literal of the text.
pub open spec fn stored_form(text: Seq<char>) -> Seq<u8> {
    compact_record(json_string(text))
}

/// The body that shows a record with this text to a reader: the record for
/// a reader around the JSON literal of the text.
pub open spec fn shown_form(text: Seq<char>) -> Seq<u8> {
    pretty_record(json_string(text))
}

/// What the server sends back: a status and a body.
#[derive(Debug)]
pub struct Reply {
    pub status: u16,
    pub body: Vec<u8>,
}

/// Why the repository could not serve a request.
#[derive(Debug, Clone, Copy, PartialEq, Eq, Structural)]
pub enum RepositoryError {
    /// The database refused the write.
    WriteFailed,
    /// The database holds nothing under the key.
    KeyNotFound,
}

impl RepositoryError {
    /// The words in which the repository reports the failure.
    pub fn message(&self) -> (text: &'static str)
        ensures
            text@ == match *self {
                RepositoryError::WriteFailed => "Repository: Failed to add to db."@,
                RepositoryError::KeyNotFound => "Repository: Key not found."@,
            },
    {
        match self {
            RepositoryError::WriteFailed => "Repository: Failed to add to db.",
            RepositoryError::KeyNotFound => "Repository: Key not found.",
        }
    }
}

/// What the repository answers to a write, given whether the database took it.
pub fn add_transaction(written: bool) -> (outcome: Result<(), RepositoryError>)
    ensures
        written ==> outcome == Ok::<(), RepositoryError>(()),
        !written ==> outcome == Err::<(), RepositoryError>(RepositoryError::WriteFailed),
{
    if written {
        Ok(())
    } else {
        Err(RepositoryError::WriteFailed)
    }
}

/// What the repository answers to a read, given what the database held under
/// the key.
pub fn get_transaction(held: Option<Vec<u8>>) -> (outcome: Result<Vec<u8>, RepositoryError>)
    ensures
        held matches Some(bytes) ==> outcome == Ok::<Vec<u8>, RepositoryError>(bytes),
        held is None ==> outcome == Err::<Vec<u8>, RepositoryError>(RepositoryError::KeyNotFound),
{
    match held {
        Some(bytes) => Ok(bytes),
        None => Err(RepositoryError::KeyNotFound),
    }
}

/// The reply to a read, given the body that shows the record: `STATUS_OK`
/// with that body where the record was found, `STATUS_NOT_FOUND` with an
/// empty body where it was not.
pub fn get_reply(found: Result<Vec<u8>, RepositoryError>) -> (reply: Reply)
    ensures
        found matches Ok(body) ==> reply.status == STATUS_OK && reply.body@ == body@,
        found is Err ==> reply.status == STATUS_NOT_FOUND && reply.body@ == Seq::<u8>::empty(),
{
    match found {
        Ok(body) => Reply { status: STATUS_OK, body },
        Err(_) => Reply { status: STATUS_NOT_FOUND, body: Vec::new() },
    }
}

/// What a read found under a key.
#[derive(Debug)]
pub enum Held {
    /// The database holds nothing under the key.
    Nothing,
    /// The database holds bytes under the key that are no record.
    Unreadable,
    /// The database holds this record under the key.
    Record(Transaction),
}

/// The reply with a status and nothing else.
pub fn bare_reply(status: u16) -> (reply: Reply)
    ensures
        reply.status == status,
        reply.body@ == Seq::<u8>::empty(),
{
    Reply { status, body: Vec::new() }
}

/// The reply to a read. A key under which the database holds nothing gives
/// `STATUS_NOT_FOUND`. Bytes that are no record give `STATUS_INTERNAL_ERROR`.
/// A record gives `STATUS_OK` with the record as a reader sees it. Only that
/// last reply has a body.
pub fn handle_get_transaction(held: Held) -> (reply: Reply)
    ensures
        held is Nothing ==> reply.status == STATUS_NOT_FOUND && reply.body@ == Seq::<u8>::empty(),
        held is Unreadable ==> reply.status == STATUS_INTERNAL_ERROR && reply.body@ == Seq::<
            u8,
        >::empty(),
        held matches Held::Record(record) ==> reply.status == STATUS_OK && reply.body@
            == shown_form(record@),
{
    match held {
        Held::Nothing => get_reply(Err(RepositoryError::KeyNotFound)),
        Held::Unreadable => bare_reply(STATUS_INTERNAL_ERROR),
        Held::Record(record) => match bytes_to_json(&record) {
            Some(body) => get_reply(Ok(body)),
            None => bare_reply(STATUS_INTERNAL_ERROR),
        },
    }
}

/// The reply to a write under `key`, given what the repository answered:
/// `STATUS_OK` with the key as its body where the record was stored, so that
/// the writer can ask for the record again; `STATUS_NO_CONTENT` with an
/// empty body where the database refused it.
pub fn handle_post_transaction(key: i32, stored: Result<(), RepositoryError>) -> (reply: Reply)
    ensures
        stored is Ok ==> reply.status == STATUS_OK && reply.body@ == key_text(key),
        stored is Err ==> reply.status == STATUS_NO_CONTENT && reply.body@ == Seq::<u8>::empty(),
{
    match stored {
        Ok(()) => {
            let mut body: Vec<u8> = Vec::new();
            push_key(&mut body, key);
            Reply { status: STATUS_OK, body }
        },
        Err(_) => bare_reply(STATUS_NO_CONTENT),
    }
}

/// The reply to a write whose body is no record: `STATUS_BAD_REQUEST`,
/// without a body.
pub fn handle_unreadable_body() -> (reply: Reply)
    ensures
        reply.status == STATUS_BAD_REQUEST,
        reply.body@ == Seq::<u8>::empty(),
{
    bare_reply(STATUS_BAD_REQUEST)
}

/// The reply to a request that is not served, or `None` where the request
/// is one to read or to write: `STATUS_NOT_FOUND` for a path that is not
/// served at all, `STATUS_METHOD_NOT_ALLOWED` for one that is served under
/// another method. Neither has a body.
pub fn handle_unserved(request: Route) -> (reply: Option<Reply>)
    ensures
        request is NotFound ==> (reply matches Some(r) && r.status == STATUS_NOT_FOUND && r.body@
            == Seq::<u8>::empty()),
        request is MethodNotAllowed ==> (reply matches Some(r) && r.status
            == STATUS_METHOD_NOT_ALLOWED && r.body@ == Seq::<u8>::empty()),
        request is GetTransaction || request is PostTransaction ==> reply is None,
{
    match request {
        Route::NotFound => Some(bare_reply(STATUS_NOT_FOUND)),
        Route::MethodNotAllowed => Some(bare_reply(STATUS_METHOD_NOT_ALLOWED)),
        Route::GetTransaction { key } => None,
        Route::PostTransaction => None,
    }
}

/// A write that succeeded names the key under which the record can be read
/// again: the path of a read, followed by the reply's body, asks for that
/// key.
pub proof fn lemma_reply_names_the_key(key: i32)
    ensures
        routed(method_get(), path_get() + key_text(key)) == (Route::GetTransaction { key }),
{
    lemma_key_round_trip(key);
    let path = path_get() + key_text(key);
    assert(path.take(path_get().len() as int) =~= path_get());
    assert(path.skip(path_get().len() as int) =~= key_text(key));
}

} // verus!
