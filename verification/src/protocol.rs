//! SSH agent wire protocol (draft-miller-ssh-agent).
//!
//! Wire format: `[4-byte big-endian length][1-byte type][payload...]`.
//! The length counts the type byte but not the 4 length bytes themselves.
use vstd::prelude::*;
use vstd::slice::{slice_subrange, slice_to_vec};
use vstd::utf8::{decode_utf8, encode_utf8, valid_utf8};

use crate::text::{decimal, push_decimal};

verus! {

// ─── Message type constants ──────────────────────────────────────
pub const SSH_AGENTC_REQUEST_IDENTITIES: u8 = 11;

pub const SSH_AGENTC_SIGN_REQUEST: u8 = 13;

pub const SSH_AGENTC_ADD_IDENTITY: u8 = 17;

pub const SSH_AGENTC_REMOVE_IDENTITY: u8 = 18;

pub const SSH_AGENTC_REMOVE_ALL_IDENTITIES: u8 = 19;

pub const SSH_AGENTC_ADD_ID_CONSTRAINED: u8 = 25;

pub const SSH_AGENTC_EXTENSION: u8 = 27;

pub const SSH_AGENT_FAILURE: u8 = 5;

pub const SSH_AGENT_SUCCESS: u8 = 6;

pub const SSH_AGENT_IDENTITIES_ANSWER: u8 = 12;

pub const SSH_AGENT_SIGN_RESPONSE: u8 = 14;

pub const SSH_AGENT_EXTENSION_FAILURE: u8 = 28;

pub const SSH_AGENT_RSA_SHA2_256: u32 = 2;

pub const SSH_AGENT_RSA_SHA2_512: u32 = 4;

/// Maximum allowed SSH agent message size (256 KB); larger messages are rejected.
pub const MAX_MESSAGE_SIZE: usize = 262_144;

// ─── Messages ────────────────────────────────────────────────────
/// A parsed SSH agent protocol request.
#[derive(Debug, Clone)]
pub enum AgentMessage {
    /// Client requests the list of public keys (type 11)
    RequestIdentities,
    /// Client requests a signature (type 13)
    SignRequest { key_blob: Vec<u8>, data: Vec<u8>, flags: u32 },
    /// Client wants to add an identity (type 17 or 25)
    AddIdentity { raw: Vec<u8> },
    /// Client wants to remove a specific identity (type 18)
    RemoveIdentity { key_blob: Vec<u8> },
    /// Client wants to remove all identities (type 19)
    RemoveAllIdentities,
    /// Extension message (type 27)
    Extension { name: String, data: Vec<u8> },
    /// Any other message type
    Unknown { msg_type: u8, payload: Vec<u8> },
}

/// A response message sent back to the client.
#[derive(Debug, Clone)]
pub enum AgentResponse {
    /// Generic failure (type 5)
    Failure,
    /// Generic success (type 6)
    Success,
    /// List of (public key blob, comment) pairs (type 12)
    IdentitiesAnswer { identities: Vec<(Vec<u8>, String)> },
    /// Signature response (type 14)
    SignResponse { signature_blob: Vec<u8> },
}

/// An SSH public key identity served by the agent.
#[derive(Debug, Clone)]
pub struct AgentIdentity {
    pub key_blob: Vec<u8>,
    pub comment: String,
}

/// Errors of the agent wire codec.
#[derive(Debug)]
pub enum AgentError {
    TooShort { need: usize, got: usize },
    UnknownMessageType(u8),
    InvalidFormat(String),
    Io(String),
}

/// Mathematical model of a request.
pub enum MessageModel {
    RequestIdentities,
    SignRequest { key_blob: Seq<u8>, data: Seq<u8>, flags: u32 },
    AddIdentity { raw: Seq<u8> },
    RemoveIdentity { key_blob: Seq<u8> },
    RemoveAllIdentities,
    Extension { name: Seq<char>, data: Seq<u8> },
    Unknown { msg_type: u8, payload: Seq<u8> },
}

/// Mathematical model of a response.
pub enum ResponseModel {
    Failure,
    Success,
    IdentitiesAnswer { identities: Seq<(Seq<u8>, Seq<char>)> },
    SignResponse { signature_blob: Seq<u8> },
}

/// Mathematical model of a codec error.
pub enum ErrorModel {
    TooShort { need: nat, got: nat },
    UnknownMessageType(u8),
    InvalidFormat(Seq<char>),
    Io(Seq<char>),
}

impl View for AgentMessage {
    type V = MessageModel;

    open spec fn view(&self) -> MessageModel {
        match self {
            AgentMessage::RequestIdentities => MessageModel::RequestIdentities,
            AgentMessage::SignRequest { key_blob, data, flags } => MessageModel::SignRequest {
                key_blob: key_blob@,
                data: data@,
                flags: *flags,
            },
            AgentMessage::AddIdentity { raw } => MessageModel::AddIdentity { raw: raw@ },
            AgentMessage::RemoveIdentity { key_blob } => MessageModel::RemoveIdentity {
                key_blob: key_blob@,
            },
            AgentMessage::RemoveAllIdentities => MessageModel::RemoveAllIdentities,
            AgentMessage::Extension { name, data } => MessageModel::Extension {
                name: name@,
                data: data@,
            },
            AgentMessage::Unknown { msg_type, payload } => MessageModel::Unknown {
                msg_type: *msg_type,
                payload: payload@,
            },
        }
    }
}

/// The model of a list of identities.
pub open spec fn identities_model(ids: Seq<(Vec<u8>, String)>) -> Seq<(Seq<u8>, Seq<char>)> {
    ids.map_values(|p: (Vec<u8>, String)| (p.0@, p.1@))
}

impl View for AgentResponse {
    type V = ResponseModel;

    open spec fn view(&self) -> ResponseModel {
        match self {
            AgentResponse::Failure => ResponseModel::Failure,
            AgentResponse::Success => ResponseModel::Success,
            AgentResponse::IdentitiesAnswer { identities } => ResponseModel::IdentitiesAnswer {
                identities: identities_model(identities@),
            },
            AgentResponse::SignResponse { signature_blob } => ResponseModel::SignResponse {
                signature_blob: signature_blob@,
            },
        }
    }
}

impl View for AgentError {
    type V = ErrorModel;

    open spec fn view(&self) -> ErrorModel {
        match self {
            AgentError::TooShort { need, got } => ErrorModel::TooShort {
                need: *need as nat,
                got: *got as nat,
            },
            AgentError::UnknownMessageType(t) => ErrorModel::UnknownMessageType(*t),
            AgentError::InvalidFormat(s) => ErrorModel::InvalidFormat(s@),
            AgentError::Io(s) => ErrorModel::Io(s@),
        }
    }
}

/// The model of a decoding result.
pub open spec fn result_model(r: Result<AgentMessage, AgentError>) -> Result<MessageModel, ErrorModel> {
    match r {
        Ok(m) => Ok(m@),
        Err(e) => Err(e@),
    }
}

// ─── Wire format model ───────────────────────────────────────────
/// Big-endian value of the four bytes of `b` starting at `off`.
pub open spec fn be_u32_at(b: Seq<u8>, off: int) -> u32 {
    ((b[off] as u32) << 24u32) | ((b[off + 1] as u32) << 16u32) | ((b[off + 2] as u32) << 8u32) | (
    b[off + 3] as u32)
}

/// The four big-endian bytes of `v`.
pub open spec fn be_bytes(v: u32) -> Seq<u8> {
    seq![(v >> 24u32) as u8, (v >> 16u32) as u8, (v >> 8u32) as u8, v as u8]
}

/// An SSH "string": 4-byte length followed by the data.
pub open spec fn ssh_string(d: Seq<u8>) -> Seq<u8> {
    be_bytes(d.len() as u32) + d
}

/// The UTF-8 text of the error from `String::from_utf8` on invalid input.
pub uninterp spec fn utf8_error_text(bytes: Seq<u8>) -> Seq<char>;

/// `String::from_utf8`: succeeds exactly on valid UTF-8 and then holds its decoding;
/// on failure gives the text of the UTF-8 error.
#[verifier::external_body]
pub(crate) fn string_from_utf8(bytes: Vec<u8>) -> (r: Result<String, String>)
    ensures
        r is Ok <==> valid_utf8(bytes@),
        r matches Ok(s) ==> s@ == decode_utf8(bytes@),
        r matches Err(e) ==> e@ == utf8_error_text(bytes@),
{
    String::from_utf8(bytes).map_err(|e| e.to_string())
}

/// Result of reading an SSH string at `off`: the data and the position after it.
#[verifier::opaque]
pub open spec fn read_string_model(b: Seq<u8>, off: nat) -> Result<(Seq<u8>, nat), ErrorModel> {
    if b.len() < off + 4 {
        Err(ErrorModel::TooShort { need: off + 4, got: b.len() })
    } else {
        let len = be_u32_at(b, off as int) as nat;
        let pos = off + 4;
        if len > MAX_MESSAGE_SIZE {
            Err(ErrorModel::InvalidFormat(string_too_large_text(len)))
        } else if b.len() < pos + len {
            Err(ErrorModel::TooShort { need: pos + len, got: b.len() })
        } else {
            Ok((b.subrange(pos as int, (pos + len) as int), pos + len))
        }
    }
}

pub open spec fn string_too_large_text(len: nat) -> Seq<char> {
    "string too large: "@ + decimal(len) + " bytes"@
}

pub open spec fn message_too_large_text(len: nat) -> Seq<char> {
    "message too large: "@ + decimal(len) + " bytes (max "@ + decimal(MAX_MESSAGE_SIZE as nat)
        + ")"@
}

/// The sign request a payload of type 13 decodes to.
#[verifier::opaque]
pub open spec fn decode_sign_model(payload: Seq<u8>) -> Result<MessageModel, ErrorModel> {
    match read_string_model(payload, 0) {
        Err(e) => Err(e),
        Ok((key_blob, pos)) => match read_string_model(payload, pos) {
            Err(e) => Err(e),
            Ok((data, pos2)) => {
                let flags = if pos2 + 4 <= payload.len() {
                    be_u32_at(payload, pos2 as int)
                } else {
                    0u32
                };
                Ok(MessageModel::SignRequest { key_blob, data, flags })
            },
        },
    }
}

/// The request a payload of type `t` decodes to.
pub open spec fn decode_payload_model(t: u8, payload: Seq<u8>) -> Result<MessageModel, ErrorModel> {
    if t == SSH_AGENTC_REQUEST_IDENTITIES {
        Ok(MessageModel::RequestIdentities)
    } else if t == SSH_AGENTC_SIGN_REQUEST {
        decode_sign_model(payload)
    } else if t == SSH_AGENTC_ADD_IDENTITY || t == SSH_AGENTC_ADD_ID_CONSTRAINED {
        Ok(MessageModel::AddIdentity { raw: payload })
    } else if t == SSH_AGENTC_REMOVE_IDENTITY {
        match read_string_model(payload, 0) {
            Err(e) => Err(e),
            Ok((key_blob, _)) => Ok(MessageModel::RemoveIdentity { key_blob }),
        }
    } else if t == SSH_AGENTC_REMOVE_ALL_IDENTITIES {
        Ok(MessageModel::RemoveAllIdentities)
    } else if t == SSH_AGENTC_EXTENSION {
        match read_string_model(payload, 0) {
            Err(e) => Err(e),
            Ok((name_bytes, pos)) => if valid_utf8(name_bytes) {
                Ok(
                    MessageModel::Extension {
                        name: decode_utf8(name_bytes),
                        data: payload.subrange(pos as int, payload.len() as int),
                    },
                )
            } else {
                Err(
                    ErrorModel::InvalidFormat("extension name: "@ + utf8_error_text(name_bytes)),
                )
            },
        }
    } else {
        Ok(MessageModel::Unknown { msg_type: t, payload })
    }
}

/// The result of decoding a full wire message (length prefix included).
pub open spec fn decode_model(b: Seq<u8>) -> Result<MessageModel, ErrorModel> {
    if b.len() < 5 {
        Err(ErrorModel::TooShort { need: 5, got: b.len() })
    } else {
        let msg_len = be_u32_at(b, 0) as nat;
        if msg_len > MAX_MESSAGE_SIZE {
            Err(ErrorModel::InvalidFormat(message_too_large_text(msg_len)))
        } else if b.len() < 4 + msg_len {
            Err(ErrorModel::TooShort { need: 4 + msg_len, got: b.len() })
        } else {
            decode_payload_model(b[4], b.subrange(5, 4 + msg_len as int))
        }
    }
}

/// The bytes of a list of identities: each key blob and comment as SSH strings.
pub open spec fn identities_bytes(ids: Seq<(Seq<u8>, Seq<char>)>) -> Seq<u8>
    decreases ids.len(),
{
    if ids.len() == 0 {
        Seq::empty()
    } else {
        identities_bytes(ids.drop_last()) + ssh_string(ids.last().0) + ssh_string(
            encode_utf8(ids.last().1),
        )
    }
}

/// The payload (type byte and body) of a response.
pub open spec fn response_payload(r: ResponseModel) -> Seq<u8> {
    match r {
        ResponseModel::Failure => seq![SSH_AGENT_FAILURE],
        ResponseModel::Success => seq![SSH_AGENT_SUCCESS],
        ResponseModel::IdentitiesAnswer { identities } => seq![SSH_AGENT_IDENTITIES_ANSWER]
            + be_bytes(identities.len() as u32) + identities_bytes(identities),
        ResponseModel::SignResponse { signature_blob } => seq![SSH_AGENT_SIGN_RESPONSE]
            + ssh_string(signature_blob),
    }
}

/// The full wire message of a response, length prefix included.
pub open spec fn encode_model(r: ResponseModel) -> Seq<u8> {
    be_bytes(response_payload(r).len() as u32) + response_payload(r)
}

/// The frame at the front of a byte stream and its length, if a complete,
/// acceptably sized one is there.
pub open spec fn frame_model(b: Seq<u8>) -> Option<(Seq<u8>, nat)> {
    if b.len() < 4 {
        None
    } else {
        let msg_len = be_u32_at(b, 0) as nat;
        if msg_len > MAX_MESSAGE_SIZE || b.len() < 4 + msg_len {
            None
        } else {
            Some((b.take(4 + msg_len as int), 4 + msg_len))
        }
    }
}

/// Result of reading a big-endian u32 at `off`: the value and the position after it.
pub open spec fn read_u32_model(b: Seq<u8>, off: nat) -> Result<(u32, nat), ErrorModel> {
    if b.len() < off + 4 {
        Err(ErrorModel::TooShort { need: off + 4, got: b.len() })
    } else {
        Ok((be_u32_at(b, off as int), off + 4))
    }
}

pub open spec fn u32_result_model(r: Result<(u32, usize), AgentError>) -> Result<(u32, nat), ErrorModel> {
    match r {
        Ok((v, p)) => Ok((v, p as nat)),
        Err(e) => Err(e@),
    }
}

pub open spec fn string_result_model(r: Result<(Vec<u8>, usize), AgentError>) -> Result<(Seq<u8>, nat), ErrorModel> {
    match r {
        Ok((v, p)) => Ok((v@, p as nat)),
        Err(e) => Err(e@),
    }
}

pub open spec fn frame_result_model(r: Option<(Vec<u8>, usize)>) -> Option<(Seq<u8>, nat)> {
    match r {
        Some((v, n)) => Some((v@, n as nat)),
        None => None,
    }
}

// ─── Wire format helpers ─────────────────────────────────────────
/// Read a 4-byte big-endian u32 from a buffer at the given offset.
fn read_u32(buf: &[u8], offset: usize) -> (res: Result<(u32, usize), AgentError>)
    requires
        offset + 4 <= usize::MAX,
    ensures
        u32_result_model(res) == read_u32_model(buf@, offset as nat),
{
    if buf.len() < offset + 4 {
        return Err(AgentError::TooShort { need: offset + 4, got: buf.len() });
    }
    let val = ((buf[offset] as u32) << 24u32) | ((buf[offset + 1] as u32) << 16u32) | ((
    buf[offset + 2] as u32) << 8u32) | (buf[offset + 3] as u32);
    Ok((val, offset + 4))
}

/// Read an SSH "string" (4-byte length + data) at the given offset.
fn read_string(buf: &[u8], offset: usize) -> (res: Result<(Vec<u8>, usize), AgentError>)
    requires
        offset + 4 + MAX_MESSAGE_SIZE <= usize::MAX,
    ensures
        string_result_model(res) == read_string_model(buf@, offset as nat),
{
    reveal(read_string_model);
    let (len, pos) = read_u32(buf, offset)?;
    let len = len as usize;
    if len > MAX_MESSAGE_SIZE {
        let mut msg = String::new();
        msg.append("string too large: ");
        push_decimal(&mut msg, len as u64);
        msg.append(" bytes");
        return Err(AgentError::InvalidFormat(msg));
    }
    if buf.len() < pos + len {
        return Err(AgentError::TooShort { need: pos + len, got: buf.len() });
    }
    let data = slice_to_vec(slice_subrange(buf, pos, pos + len));
    Ok((data, pos + len))
}

/// Write a 4-byte big-endian u32 to a buffer.
fn write_u32(buf: &mut Vec<u8>, val: u32)
    ensures
        final(buf)@ == old(buf)@ + be_bytes(val),
{
    buf.push((val >> 24u32) as u8);
    buf.push((val >> 16u32) as u8);
    buf.push((val >> 8u32) as u8);
    buf.push(val as u8);
    assert(buf@ =~= old(buf)@ + be_bytes(val));
}

/// Append the bytes of `data` to `buf`.
fn write_bytes(buf: &mut Vec<u8>, data: &[u8])
    ensures
        final(buf)@ == old(buf)@ + data@,
{
    let mut i: usize = 0;
    while i < data.len()
        invariant
            i <= data@.len(),
            buf@ == old(buf)@ + data@.take(i as int),
        decreases data@.len() - i,
    {
        buf.push(data[i]);
        assert(data@.take(i as int + 1) == data@.take(i as int).push(data@[i as int]));
        i = i + 1;
    }
    assert(data@.take(data@.len() as int) == data@);
}

/// Write an SSH "string" (4-byte length + data) to a buffer.
pub(crate) fn write_string(buf: &mut Vec<u8>, data: &[u8])
    ensures
        final(buf)@ == old(buf)@ + ssh_string(data@),
{
    write_u32(buf, data.len() as u32);
    write_bytes(buf, data);
    assert(buf@ =~= old(buf)@ + ssh_string(data@));
}

// ─── Decode ──────────────────────────────────────────────────────
/// Decode a single SSH agent message from the full wire message, length prefix included.
///
/// A buffer of five or more bytes whose length prefix is zero has no type byte
/// inside its frame; it is outside what this function accepts.
pub fn decode_message(buf: &[u8]) -> (res: Result<AgentMessage, AgentError>)
    requires
        buf@.len() >= 5 ==> be_u32_at(buf@, 0) != 0,
    ensures
        result_model(res) == decode_model(buf@),
{
    proof {
        reveal(read_string_model);
    }
    if buf.len() < 5 {
        return Err(AgentError::TooShort { need: 5, got: buf.len() });
    }
    let (msg_len, _) = read_u32(buf, 0)?;
    let msg_len = msg_len as usize;
    if msg_len > MAX_MESSAGE_SIZE {
        let mut msg = String::new();
        msg.append("message too large: ");
        push_decimal(&mut msg, msg_len as u64);
        msg.append(" bytes (max ");
        push_decimal(&mut msg, MAX_MESSAGE_SIZE as u64);
        msg.append(")");
        return Err(AgentError::InvalidFormat(msg));
    }
    let total_len = 4 + msg_len;
    if buf.len() < total_len {
        return Err(AgentError::TooShort { need: total_len, got: buf.len() });
    }
    let msg_type = buf[4];
    let payload = slice_subrange(buf, 5, total_len);
    assert(payload@ == buf@.subrange(5, 4 + msg_len as int));
    if msg_type == SSH_AGENTC_REQUEST_IDENTITIES {
        Ok(AgentMessage::RequestIdentities)
    } else if msg_type == SSH_AGENTC_SIGN_REQUEST {
        proof {
            reveal(decode_sign_model);
        }
        let (key_blob, pos) = read_string(payload, 0)?;
        let (data, pos) = read_string(payload, pos)?;
        let (flags, _) = if pos + 4 <= payload.len() {
            read_u32(payload, pos)?
        } else {
            (0u32, pos)
        };
        Ok(AgentMessage::SignRequest { key_blob, data, flags })
    } else if msg_type == SSH_AGENTC_ADD_IDENTITY || msg_type == SSH_AGENTC_ADD_ID_CONSTRAINED {
        Ok(AgentMessage::AddIdentity { raw: slice_to_vec(payload) })
    } else if msg_type == SSH_AGENTC_REMOVE_IDENTITY {
        let (key_blob, _) = read_string(payload, 0)?;
        Ok(AgentMessage::RemoveIdentity { key_blob })
    } else if msg_type == SSH_AGENTC_REMOVE_ALL_IDENTITIES {
        Ok(AgentMessage::RemoveAllIdentities)
    } else if msg_type == SSH_AGENTC_EXTENSION {
        let (name_bytes, pos) = read_string(payload, 0)?;
        let name = match string_from_utf8(name_bytes) {
            Ok(n) => n,
            Err(e) => {
                let mut msg = String::new();
                msg.append("extension name: ");
                msg.append(e.as_str());
                return Err(AgentError::InvalidFormat(msg));
            },
        };
        let data = slice_to_vec(slice_subrange(payload, pos, payload.len()));
        Ok(AgentMessage::Extension { name, data })
    } else {
        Ok(AgentMessage::Unknown { msg_type, payload: slice_to_vec(payload) })
    }
}

// ─── Encode ──────────────────────────────────────────────────────
/// Encode an SSH agent response into its full wire message, length prefix included.
pub fn encode_message(response: &AgentResponse) -> (msg: Vec<u8>)
    ensures
        msg@ == encode_model(response@),
{
    let mut payload: Vec<u8> = Vec::new();
    match response {
        AgentResponse::Failure => {
            payload.push(SSH_AGENT_FAILURE);
        },
        AgentResponse::Success => {
            payload.push(SSH_AGENT_SUCCESS);
        },
        AgentResponse::IdentitiesAnswer { identities } => {
            payload.push(SSH_AGENT_IDENTITIES_ANSWER);
            write_u32(&mut payload, identities.len() as u32);
            let ghost head = payload@;
            let mut i: usize = 0;
            while i < identities.len()
                invariant
                    i <= identities@.len(),
                    payload@ == head + identities_bytes(identities_model(identities@.take(i as int))),
                decreases identities@.len() - i,
            {
                let (key_blob, comment) = &identities[i];
                write_string(&mut payload, key_blob.as_slice());
                write_string(&mut payload, comment.as_str().as_bytes());
                assert(identities_model(identities@.take(i as int + 1)).drop_last()
                    =~= identities_model(identities@.take(i as int)));
                i = i + 1;
            }
            assert(identities@.take(identities@.len() as int) == identities@);
            assert(identities_model(identities@).len() == identities@.len());
        },
        AgentResponse::SignResponse { signature_blob } => {
            payload.push(SSH_AGENT_SIGN_RESPONSE);
            write_string(&mut payload, signature_blob.as_slice());
        },
    }
    assert(payload@ =~= response_payload(response@));
    let mut msg: Vec<u8> = Vec::new();
    write_u32(&mut msg, payload.len() as u32);
    write_bytes(&mut msg, payload.as_slice());
    assert(msg@ =~= encode_model(response@));
    msg
}

/// Read a framed message from a byte stream: the frame (length prefix included)
/// and the number of bytes it takes, or `None` without a complete, acceptably
/// sized frame at the front.
pub fn try_read_frame(buf: &[u8]) -> (r: Option<(Vec<u8>, usize)>)
    ensures
        frame_result_model(r) == frame_model(buf@),
{
    if buf.len() < 4 {
        return None;
    }
    let msg_len = (((buf[0] as u32) << 24u32) | ((buf[1] as u32) << 16u32) | ((buf[2] as u32)
        << 8u32) | (buf[3] as u32)) as usize;
    if msg_len > MAX_MESSAGE_SIZE {
        return None;
    }
    let total = 4 + msg_len;
    if buf.len() < total {
        return None;
    }
    Some((slice_to_vec(slice_subrange(buf, 0, total)), total))
}

// ─── Laws ────────────────────────────────────────────────────────
proof fn lemma_be_roundtrip(v: u32)
    ensures
        ((((v >> 24u32) as u8) as u32) << 24u32) | ((((v >> 16u32) as u8) as u32) << 16u32) | ((((v
            >> 8u32) as u8) as u32) << 8u32) | (((v as u8) as u32)) == v,
{
    assert(((((v >> 24u32) as u8) as u32) << 24u32) | ((((v >> 16u32) as u8) as u32) << 16u32) | ((((v
        >> 8u32) as u8) as u32) << 8u32) | (((v as u8) as u32)) == v) by (bit_vector);
}

/// Reading four big-endian bytes gives back the value they were written from.
pub proof fn lemma_be_bytes_read(v: u32, rest: Seq<u8>)
    ensures
        be_u32_at(be_bytes(v) + rest, 0) == v,
{
    lemma_be_roundtrip(v);
    let b = be_bytes(v) + rest;
    assert(b[0] == (v >> 24u32) as u8);
    assert(b[1] == (v >> 16u32) as u8);
    assert(b[2] == (v >> 8u32) as u8);
    assert(b[3] == v as u8);
}

/// Every encoded response whose payload fits the size limit is read back as
/// exactly one frame: the whole message, consuming all of its bytes.
pub proof fn lemma_encoded_response_is_one_frame(r: ResponseModel)
    requires
        response_payload(r).len() <= MAX_MESSAGE_SIZE,
    ensures
        frame_model(encode_model(r)) == Some((encode_model(r), encode_model(r).len())),
{
    let p = response_payload(r);
    lemma_be_bytes_read(p.len() as u32, p);
    assert(encode_model(r).take(4 + p.len() as int) =~= encode_model(r));
}

/// Four big-endian bytes written at `pre.len()` are read back as the value.
pub proof fn lemma_be_read_at(b: Seq<u8>, pre: Seq<u8>, v: u32, rest: Seq<u8>)
    requires
        b == pre + be_bytes(v) + rest,
    ensures
        be_u32_at(b, pre.len() as int) == v,
{
    lemma_be_bytes_read(v, rest);
    let tail = be_bytes(v) + rest;
    assert(b[pre.len() as int] == tail[0]);
    assert(b[pre.len() + 1int] == tail[1]);
    assert(b[pre.len() + 2int] == tail[2]);
    assert(b[pre.len() + 3int] == tail[3]);
}

/// An SSH string written at `pre.len()` is read back whole.
pub proof fn lemma_ssh_string_read(b: Seq<u8>, pre: Seq<u8>, d: Seq<u8>, rest: Seq<u8>)
    requires
        d.len() <= MAX_MESSAGE_SIZE,
        b == pre + ssh_string(d) + rest,
    ensures
        read_string_model(b, pre.len()) == Ok::<(Seq<u8>, nat), ErrorModel>(
            (d, pre.len() + 4 + d.len()),
        ),
{
    reveal(read_string_model);
    assert(b =~= pre + be_bytes(d.len() as u32) + (d + rest));
    lemma_be_read_at(b, pre, d.len() as u32, d + rest);
    assert(b.subrange(pre.len() + 4int, pre.len() + 4 + d.len() as int) =~= d);
}

proof fn lemma_sign_model_from_reads(p: Seq<u8>, k: Seq<u8>, d: Seq<u8>, f: u32, a: nat, b: nat)
    requires
        read_string_model(p, 0) == Ok::<(Seq<u8>, nat), ErrorModel>((k, a)),
        read_string_model(p, a) == Ok::<(Seq<u8>, nat), ErrorModel>((d, b)),
        b + 4 <= p.len(),
        be_u32_at(p, b as int) == f,
    ensures
        decode_sign_model(p) == Ok::<MessageModel, ErrorModel>(
            MessageModel::SignRequest { key_blob: k, data: d, flags: f },
        ),
{
    reveal(decode_sign_model);
}

proof fn lemma_sign_body_decodes(key: Seq<u8>, data: Seq<u8>, flags: u32)
    requires
        key.len() <= MAX_MESSAGE_SIZE,
        data.len() <= MAX_MESSAGE_SIZE,
    ensures
        decode_sign_model(ssh_string(key) + ssh_string(data) + be_bytes(flags)) == Ok::<
            MessageModel,
            ErrorModel,
        >(MessageModel::SignRequest { key_blob: key, data, flags }),
{
    let body = ssh_string(key) + ssh_string(data) + be_bytes(flags);
    let e = Seq::<u8>::empty();
    let r1 = ssh_string(data) + be_bytes(flags);
    assert(body == e + ssh_string(key) + r1) by {
        assert(body =~= e + ssh_string(key) + r1);
    }
    lemma_ssh_string_read(body, e, key, r1);
    let pre = ssh_string(key);
    assert(body == pre + ssh_string(data) + be_bytes(flags));
    lemma_ssh_string_read(body, pre, data, be_bytes(flags));
    let p2 = pre.len() + 4 + data.len();
    let head = pre + ssh_string(data);
    assert(head.len() == p2);
    assert(body == head + be_bytes(flags) + e) by {
        assert(body =~= head + be_bytes(flags) + e);
    }
    lemma_be_read_at(body, head, flags, e);
    lemma_sign_model_from_reads(body, key, data, flags, 4 + key.len(), p2);
}

/// A well-formed sign request, built from SSH strings and a flags word, decodes to
/// exactly the key blob, data and flags it was built from.
pub proof fn lemma_sign_request_decodes(key: Seq<u8>, data: Seq<u8>, flags: u32)
    requires
        key.len() + data.len() + 13 <= MAX_MESSAGE_SIZE,
    ensures
        ({
            let payload = seq![SSH_AGENTC_SIGN_REQUEST] + ssh_string(key) + ssh_string(data)
                + be_bytes(flags);
            decode_model(be_bytes(payload.len() as u32) + payload) == Ok::<MessageModel, ErrorModel>(
                MessageModel::SignRequest { key_blob: key, data, flags },
            )
        }),
{
    let payload = seq![SSH_AGENTC_SIGN_REQUEST] + ssh_string(key) + ssh_string(data) + be_bytes(
        flags,
    );
    let msg = be_bytes(payload.len() as u32) + payload;
    lemma_be_bytes_read(payload.len() as u32, payload);
    let body = msg.subrange(5, 4 + payload.len() as int);
    assert(msg[4] == SSH_AGENTC_SIGN_REQUEST);
    assert(body == ssh_string(key) + ssh_string(data) + be_bytes(flags)) by {
        assert(body =~= ssh_string(key) + ssh_string(data) + be_bytes(flags));
    }
    lemma_sign_body_decodes(key, data, flags);
    assert(decode_payload_model(msg[4], body) == decode_sign_model(body));
}

/// Bytes past a complete frame never change what decoding gives: a buffer that
/// holds a whole frame decodes as the frame alone.
pub proof fn lemma_decode_ignores_trailing_bytes(b: Seq<u8>)
    requires
        b.len() >= 5,
        1 <= be_u32_at(b, 0) <= MAX_MESSAGE_SIZE,
        b.len() >= 4 + be_u32_at(b, 0),
    ensures
        decode_model(b) == decode_model(b.take(4 + be_u32_at(b, 0) as int)),
{
    let n = be_u32_at(b, 0) as int;
    let f = b.take(4 + n);
    assert(f[0] == b[0] && f[1] == b[1] && f[2] == b[2] && f[3] == b[3] && f[4] == b[4]);
    assert(be_u32_at(f, 0) == be_u32_at(b, 0));
    assert(f.subrange(5, 4 + n) =~= b.subrange(5, 4 + n));
}

/// The wire message of a sign response: the frame length (the type byte, the
/// signature's length word and the signature), the type byte 14, then the signature
/// blob as an SSH string. Reading the frame's length, type byte and string back gives
/// the frame size, 14 and the signature blob, ending exactly at the end of the
/// message.
pub proof fn lemma_sign_response_wire(sig: Seq<u8>)
    requires
        sig.len() + 5 <= MAX_MESSAGE_SIZE,
    ensures
        encode_model(ResponseModel::SignResponse { signature_blob: sig }) == be_bytes((sig.len() + 5) as u32)
            + seq![14u8] + be_bytes(sig.len() as u32) + sig,
        be_u32_at(encode_model(ResponseModel::SignResponse { signature_blob: sig }), 0) == sig.len() + 5,
        encode_model(ResponseModel::SignResponse { signature_blob: sig })[4] == 14u8,
        read_string_model(encode_model(ResponseModel::SignResponse { signature_blob: sig }), 5) == Ok::<
            (Seq<u8>, nat),
            ErrorModel,
        >((sig, sig.len() + 9)),
{
    let m = encode_model(ResponseModel::SignResponse { signature_blob: sig });
    let pre = be_bytes((sig.len() + 5) as u32) + seq![14u8];
    assert(m =~= be_bytes((sig.len() + 5) as u32) + seq![14u8] + be_bytes(sig.len() as u32) + sig);
    lemma_be_bytes_read((sig.len() + 5) as u32, m.skip(4));
    assert(be_bytes((sig.len() + 5) as u32) + m.skip(4) =~= m);
    assert(m == pre + ssh_string(sig) + Seq::<u8>::empty()) by {
        assert(m =~= pre + ssh_string(sig) + Seq::<u8>::empty());
    }
    lemma_ssh_string_read(m, pre, sig, Seq::<u8>::empty());
}

/// The wire messages of the bare answers: failure is the one byte 5 and success the
/// one byte 6, each behind a length word of 1; an identities answer is the type byte
/// 12 followed by the number of identities as a big-endian word.
pub proof fn lemma_reply_wire_bytes(ids: Seq<(Seq<u8>, Seq<char>)>)
    requires
        identities_bytes(ids).len() + 5 <= MAX_MESSAGE_SIZE,
    ensures
        encode_model(ResponseModel::Failure) == seq![0u8, 0, 0, 1, 5],
        encode_model(ResponseModel::Success) == seq![0u8, 0, 0, 1, 6],
        encode_model(ResponseModel::IdentitiesAnswer { identities: ids })[4] == 12u8,
        be_u32_at(encode_model(ResponseModel::IdentitiesAnswer { identities: ids }), 5) == ids.len() as u32,
        ids.len() == 0 ==> encode_model(ResponseModel::IdentitiesAnswer { identities: ids }) == seq![
            0u8,
            0,
            0,
            5,
            12,
            0,
            0,
            0,
            0,
        ],
{
    assert(be_bytes(1u32) =~= seq![0u8, 0, 0, 1]) by {
        assert((1u32 >> 24u32) as u8 == 0 && (1u32 >> 16u32) as u8 == 0 && (1u32 >> 8u32) as u8 == 0
            && 1u32 as u8 == 1) by (bit_vector);
    }
    assert(encode_model(ResponseModel::Failure) =~= seq![0u8, 0, 0, 1, 5]);
    assert(encode_model(ResponseModel::Success) =~= seq![0u8, 0, 0, 1, 6]);
    let m = encode_model(ResponseModel::IdentitiesAnswer { identities: ids });
    let p = response_payload(ResponseModel::IdentitiesAnswer { identities: ids });
    let pre = be_bytes(p.len() as u32) + seq![12u8];
    assert(m =~= pre + be_bytes(ids.len() as u32) + identities_bytes(ids));
    lemma_be_read_at(m, pre, ids.len() as u32, identities_bytes(ids));
    if ids.len() == 0 {
        assert(identities_bytes(ids) =~= Seq::<u8>::empty());
        assert(be_bytes(0u32) =~= seq![0u8, 0, 0, 0]) by {
            assert((0u32 >> 24u32) as u8 == 0 && (0u32 >> 16u32) as u8 == 0 && (0u32 >> 8u32) as u8 == 0
                && 0u32 as u8 == 0) by (bit_vector);
        }
        assert(be_bytes(5u32) =~= seq![0u8, 0, 0, 5]) by {
            assert((5u32 >> 24u32) as u8 == 0 && (5u32 >> 16u32) as u8 == 0 && (5u32 >> 8u32) as u8 == 0
                && 5u32 as u8 == 5) by (bit_vector);
        }
        assert(m =~= seq![0u8, 0, 0, 5, 12, 0, 0, 0, 0]);
    }
}

} // verus!

