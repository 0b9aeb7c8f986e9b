//! The desktop side of remote file access over SSH: the checks made before a
//! request goes to the agent, the chunked transfers built from agent calls,
//! and the attachment upload with its fallback to the legacy image protocol.

use vstd::prelude::*;
use vstd::utf8::encode_utf8;
use crate::encoding::{b64_decode, b64_encode, decode_standard, standard_encode};
use crate::file_manage::{split_relative, split_spec};
use crate::files::{
    attachment_name_ok, legacy_image_extension, validate_attachment_name,
};
use crate::fsproto::{
    reply_bytes, reply_meta, reply_path, take_bytes, take_meta, take_path, FsReply, FsReplyV,
    FsRequest, FsRequestV, MetaReply,
};
use crate::hashing::{sha256_hex, sha256_hex_of};
use crate::paths::{file_name, file_name_spec, extension, extension_spec, has_control_break, control_break, has_dotdot_segment, dotdot_segment};
use crate::text::{
    ascii_lower, chars_of, concat, contains_text, copy_string, has_char, text_contains,
    to_ascii_lower, trim, trimmed,
};

verus! {

pub const LEGACY_IMAGE_ATTACHMENT_BYTES: usize = 5242880;
pub const MAX_CLIENT_ATTACHMENT_BYTES: usize = 20971520;
pub const MAX_LEGACY_IMAGE_PIXELS: u64 = 12000000;
pub const MAX_ATTACHMENT_BASE64_BYTES: usize = (MAX_CLIENT_ATTACHMENT_BYTES + 2) / 3 * 4;
pub const ATTACHMENT_CHUNK_BYTES: usize = 524288;

/// What the checks on a launch plan read of it.
pub struct SshLaunchPlan {
    pub host_id: String,
    pub agent_path: String,
    pub agent_installation_id: String,
    pub agent_remote_machine_id: String,
    pub client_instance_id: String,
}

/// A launch plan names a host, an agent path, an installation, a remote
/// machine and a client instance, each not blank.
pub open spec fn plan_ok(p: SshLaunchPlan) -> bool {
    trim(p.host_id@).len() > 0 && trim(p.agent_path@).len() > 0 && trim(p.agent_installation_id@).len()
        > 0 && trim(p.agent_remote_machine_id@).len() > 0 && trim(p.client_instance_id@).len() > 0
}

fn blank(s: &str) -> (r: bool)
    ensures
        r == (trim(s@).len() == 0),
{
    chars_of(trimmed(s).as_str()).len() == 0
}

pub fn validate_plan(plan: &SshLaunchPlan) -> (r: Result<(), String>)
    ensures
        plan_ok(*plan) <==> r is Ok,
        r matches Err(e) ==> e@ == "remote_file_plan_invalid"@,
{
    if blank(plan.host_id.as_str()) || blank(plan.agent_path.as_str()) || blank(
        plan.agent_installation_id.as_str(),
    ) || blank(plan.agent_remote_machine_id.as_str()) || blank(plan.client_instance_id.as_str()) {
        return Err(String::from_str("remote_file_plan_invalid"));
    }
    Ok(())
}

/// Which agent protocol an attachment upload speaks.
#[derive(Clone, Copy)]
pub enum AttachmentProtocol {
    /// Images only (`fileAttach...`).
    LegacyImage,
    /// Any file (`fileAttachAny...`).
    AnyFile,
}

pub open spec fn kind_spec(p: AttachmentProtocol, operation: Seq<char>) -> Seq<char> {
    match p {
        AttachmentProtocol::LegacyImage => "fileAttach"@ + operation,
        AttachmentProtocol::AnyFile => "fileAttachAny"@ + operation,
    }
}

impl AttachmentProtocol {
    /// The agent request kind of `operation` in this protocol.
    pub fn kind(self, operation: &str) -> (r: String)
        ensures
            r@ == kind_spec(self, operation@),
    {
        match self {
            AttachmentProtocol::LegacyImage => concat("fileAttach", operation),
            AttachmentProtocol::AnyFile => concat("fileAttachAny", operation),
        }
    }
}

/// The file name carries one of the legacy image extensions, in any ASCII
/// case.
pub open spec fn legacy_image_name(file_name: Seq<char>) -> bool {
    extension_spec(file_name) matches Some(x) && legacy_image_extension(ascii_lower(x))
}

pub fn is_legacy_image_name(file_name: &str) -> (r: bool)
    ensures
        r == legacy_image_name(file_name@),
{
    match extension(file_name) {
        Some(x) => crate::files::is_legacy_extension(to_ascii_lower(x.as_str()).as_str()),
        None => false,
    }
}

/// The width and height the `image` crate reads from `data` after guessing
/// its format from its first bytes; `None` when the format is unknown or
/// the header does not decode.
pub uninterp spec fn guessed_dimensions(data: Seq<u8>) -> Option<(u32, u32)>;

/// `image::ImageReader::new(Cursor::new(data)).with_guessed_format()` then
/// `into_dimensions()`: the image's dimensions, read from the bytes alone.
#[verifier::external_body]
fn guess_dimensions(data: &[u8]) -> (r: Option<(u32, u32)>)
    ensures
        r == guessed_dimensions(data@),
{
    match image::ImageReader::new(std::io::Cursor::new(data)).with_guessed_format() {
        Ok(reader) => reader.into_dimensions().ok(),
        Err(_) => None,
    }
}

/// Dimensions a legacy image upload accepts: at most 12 000 000 pixels.
pub open spec fn legacy_dims_ok(dims: Option<(u32, u32)>) -> bool {
    dims matches Some((w, h)) && w * h <= MAX_LEGACY_IMAGE_PIXELS
}

pub fn legacy_dimensions_ok(dims: Option<(u32, u32)>) -> (r: bool)
    ensures
        r == legacy_dims_ok(dims),
{
    match dims {
        Some((w, h)) => {
            assert((w as int) * (h as int) <= 0xffff_ffff * 0xffff_ffff) by (nonlinear_arith)
                requires
                    w <= 0xffff_ffff,
                    h <= 0xffff_ffff,
            ;
            (w as u64) * (h as u64) <= MAX_LEGACY_IMAGE_PIXELS
        },
        None => false,
    }
}

/// An upload may fall back to the legacy image protocol when it is at most
/// 5 MiB, named as a legacy image, and its bytes are an image of at most
/// 12 000 000 pixels.
pub open spec fn fallback_spec(file_name: Seq<char>, data: Seq<u8>) -> bool {
    data.len() <= LEGACY_IMAGE_ATTACHMENT_BYTES && legacy_image_name(file_name) && legacy_dims_ok(
        guessed_dimensions(data),
    )
}

pub fn can_fallback_to_legacy_image(file_name: &str, data: &[u8]) -> (r: bool)
    ensures
        r == fallback_spec(file_name@, data@),
{
    if data.len() > LEGACY_IMAGE_ATTACHMENT_BYTES || !is_legacy_image_name(file_name) {
        return false;
    }
    legacy_dimensions_ok(guess_dimensions(data))
}

/// The checks on the bytes of an attachment: not empty, at most 20 MiB.
pub open spec fn bytes_check(n: nat) -> Result<(), Seq<char>> {
    if n == 0 {
        Err("attachment_empty"@)
    } else if n > MAX_CLIENT_ATTACHMENT_BYTES {
        Err("attachment_too_large"@)
    } else {
        Ok(())
    }
}

pub fn validate_attachment_bytes(data: &[u8]) -> (r: Result<(), String>)
    ensures
        match bytes_check(data@.len()) {
            Ok(()) => r is Ok,
            Err(e) => r matches Err(x) && x@ == e,
        },
{
    if data.len() == 0 {
        return Err(String::from_str("attachment_empty"));
    }
    if data.len() > MAX_CLIENT_ATTACHMENT_BYTES {
        return Err(String::from_str("attachment_too_large"));
    }
    Ok(())
}

/// What `decode_attachment` decides: the bytes, or the error of the first
/// check that fails.
pub open spec fn decode_attachment_spec(file_name: Seq<char>, data_base64: Seq<char>) -> Result<Seq<u8>, Seq<char>> {
    if !attachment_name_ok(file_name) {
        Err("attachment_name_invalid"@)
    } else if data_base64.len() == 0 || encode_utf8(data_base64).len() > MAX_ATTACHMENT_BASE64_BYTES {
        Err("attachment_data_invalid"@)
    } else {
        match b64_decode(data_base64) {
            None => Err("attachment_data_invalid"@),
            Some(d) => match bytes_check(d.len()) {
                Ok(()) => Ok(d),
                Err(e) => Err(e),
            },
        }
    }
}

pub fn decode_attachment(file_name: String, data_base64: String) -> (r: Result<(String, Vec<u8>), String>)
    ensures
        match decode_attachment_spec(file_name@, data_base64@) {
            Ok(d) => r matches Ok((n, v)) && n@ == file_name@ && v@ == d,
            Err(e) => r matches Err(x) && x@ == e,
        },
{
    validate_attachment_name(file_name.as_str())?;
    if data_base64.as_str().is_empty() || data_base64.as_str().as_bytes().len() > MAX_ATTACHMENT_BASE64_BYTES {
        return Err(String::from_str("attachment_data_invalid"));
    }
    let data = match decode_standard(data_base64.as_str()) {
        Some(d) => d,
        None => return Err(String::from_str("attachment_data_invalid")),
    };
    validate_attachment_bytes(data.as_slice())?;
    Ok((file_name, data))
}

/// A path an upload reports on the agent's side: absolute, at most 4096
/// bytes, without NUL, CR, LF or backslash, without a `..` segment, and
/// inside the agent's attachment cache.
pub open spec fn remote_path_ok(p: Seq<char>) -> bool {
    p.len() > 0 && encode_utf8(p).len() <= 4096 && p[0] == '/' && !has_control_break(p)
        && !p.contains('\\') && !has_dotdot_segment(p) && contains_text(p, "/cli-manager-ssh-agent/attachments/"@)
}

pub fn validate_remote_attachment_path(path: &str) -> (r: Result<(), String>)
    ensures
        remote_path_ok(path@) <==> r is Ok,
        r matches Err(e) ==> e@ == "attachment_remote_path_invalid"@,
{
    let c = chars_of(path);
    if c.len() == 0 || path.as_bytes().len() > 4096 || c[0] != '/' || control_break(&c) || has_char(
        &c,
        '\\',
    ) || dotdot_segment(&c) || !text_contains(path, "/cli-manager-ssh-agent/attachments/") {
        return Err(String::from_str("attachment_remote_path_invalid"));
    }
    Ok(())
}

/// The parent and name of a relative file path (see `split_spec`).
pub fn split_relative_file(path: &str) -> (r: Result<(String, String), String>)
    ensures
        match split_spec(path@) {
            Ok((p, n)) => r matches Ok((a, b)) && a@ == p && b@ == n,
            Err(m) => r matches Err(e) && e@ == m,
        },
{
    split_relative(path)
}


/// Where the read of a local attachment stands: the reply it waits for.
#[derive(Clone, Copy)]
pub enum LocalPhase {
    /// The path's own metadata.
    Meta,
    /// The path canonicalized.
    Canon,
    /// The file's bytes, at most one more than the limit.
    Read,
}

/// The read of a local file to attach.
pub struct LocalRead {
    pub path: String,
    pub phase: LocalPhase,
    pub file_name: String,
}

pub struct LocalReadV {
    pub path: Seq<char>,
    pub phase: LocalPhase,
    pub file_name: Seq<char>,
}

impl View for LocalRead {
    type V = LocalReadV;

    open spec fn view(&self) -> LocalReadV {
        LocalReadV { path: self.path@, phase: self.phase, file_name: self.file_name@ }
    }
}

pub enum LocalReadStep {
    Ask(LocalRead, FsRequest),
    /// The file's name and bytes, or the error.
    Finished(Result<(String, Vec<u8>), String>),
}

pub enum LocalReadStepV {
    Ask(LocalReadV, FsRequestV),
    Finished(Result<(Seq<char>, Seq<u8>), Seq<char>>),
}

impl View for LocalReadStep {
    type V = LocalReadStepV;

    open spec fn view(&self) -> LocalReadStepV {
        match self {
            LocalReadStep::Ask(m, q) => LocalReadStepV::Ask(m@, q@),
            LocalReadStep::Finished(r) => LocalReadStepV::Finished(
                match r {
                    Ok((n, d)) => Ok((n@, d@)),
                    Err(e) => Err(e@),
                },
            ),
        }
    }
}

pub open spec fn local_fail(e: Seq<char>) -> LocalReadStepV {
    LocalReadStepV::Finished(Err(e))
}

/// How the read of the local file `path` starts: a path that is empty,
/// holds NUL, CR or LF, or is not absolute is refused.
pub open spec fn local_start_spec(path: Seq<char>) -> LocalReadStepV {
    if path.len() == 0 || has_control_break(path) || path[0] != '/' {
        local_fail("attachment_local_path_invalid"@)
    } else {
        LocalReadStepV::Ask(
            LocalReadV { path, phase: LocalPhase::Meta, file_name: Seq::empty() },
            FsRequestV::SymlinkMetadata(path),
        )
    }
}

/// One step of the read of a local attachment with the reply `r`.
pub open spec fn local_step_spec(m: LocalReadV, r: FsReplyV) -> LocalReadStepV {
    match m.phase {
        LocalPhase::Meta => match reply_meta(r) {
            MetaReply::Found(f) => if f.is_symlink || !f.is_file {
                local_fail("attachment_local_path_invalid"@)
            } else if f.len == 0 {
                local_fail("attachment_empty"@)
            } else if f.len > MAX_CLIENT_ATTACHMENT_BYTES {
                local_fail("attachment_too_large"@)
            } else {
                LocalReadStepV::Ask(LocalReadV { phase: LocalPhase::Canon, ..m }, FsRequestV::Canonicalize(m.path))
            },
            _ => local_fail("attachment_local_file_unavailable"@),
        },
        LocalPhase::Canon => match reply_path(r) {
            None => local_fail("attachment_local_file_unavailable"@),
            Some(c) => match file_name_spec(c) {
                None => local_fail("attachment_name_invalid"@),
                Some(n) => if !attachment_name_ok(n) {
                    local_fail("attachment_name_invalid"@)
                } else {
                    LocalReadStepV::Ask(
                        LocalReadV { phase: LocalPhase::Read, file_name: n, ..m },
                        FsRequestV::ReadPrefix(c, (MAX_CLIENT_ATTACHMENT_BYTES + 1) as u64),
                    )
                },
            },
        },
        LocalPhase::Read => match reply_bytes(r) {
            None => local_fail("attachment_local_file_unavailable"@),
            Some(d) => match bytes_check(d.len()) {
                Err(e) => local_fail(e),
                Ok(()) => LocalReadStepV::Finished(Ok((m.file_name, d))),
            },
        },
    }
}

fn local_fail_str(e: &str) -> (r: LocalReadStep)
    ensures
        r@ == local_fail(e@),
{
    LocalReadStep::Finished(Err(String::from_str(e)))
}

/// Starts reading the local file at `path` to attach it (see
/// `local_start_spec`).
pub fn read_attachment(path: String) -> (r: LocalReadStep)
    ensures
        r@ == local_start_spec(path@),
{
    let c = chars_of(path.as_str());
    if c.len() == 0 || control_break(&c) || c[0] != '/' {
        return local_fail_str("attachment_local_path_invalid");
    }
    let q = copy_string(path.as_str());
    LocalReadStep::Ask(LocalRead { path, phase: LocalPhase::Meta, file_name: String::new() }, FsRequest::SymlinkMetadata(q))
}

impl LocalRead {
    /// One step with the reply to the last request (see `local_step_spec`).
    pub fn resume(self, reply: FsReply) -> (r: LocalReadStep)
        ensures
            r@ == local_step_spec(self@, reply@),
    {
        match self.phase {
            LocalPhase::Meta => match take_meta(&reply) {
                MetaReply::Found(f) => {
                    if f.is_symlink || !f.is_file {
                        return local_fail_str("attachment_local_path_invalid");
                    }
                    if f.len == 0 {
                        return local_fail_str("attachment_empty");
                    }
                    if f.len > MAX_CLIENT_ATTACHMENT_BYTES as u64 {
                        return local_fail_str("attachment_too_large");
                    }
                    let q = copy_string(self.path.as_str());
                    LocalReadStep::Ask(LocalRead { phase: LocalPhase::Canon, ..self }, FsRequest::Canonicalize(q))
                },
                _ => local_fail_str("attachment_local_file_unavailable"),
            },
            LocalPhase::Canon => match take_path(reply) {
                None => local_fail_str("attachment_local_file_unavailable"),
                Some(c) => match file_name(c.as_str()) {
                    None => local_fail_str("attachment_name_invalid"),
                    Some(n) => {
                        if validate_attachment_name(n.as_str()).is_err() {
                            return local_fail_str("attachment_name_invalid");
                        }
                        LocalReadStep::Ask(
                            LocalRead { phase: LocalPhase::Read, file_name: n, ..self },
                            FsRequest::ReadPrefix(c, (MAX_CLIENT_ATTACHMENT_BYTES + 1) as u64),
                        )
                    },
                },
            },
            LocalPhase::Read => match take_bytes(reply) {
                None => local_fail_str("attachment_local_file_unavailable"),
                Some(d) => match validate_attachment_bytes(d.as_slice()) {
                    Err(e) => LocalReadStep::Finished(Err(e)),
                    Ok(()) => LocalReadStep::Finished(Ok((self.file_name, d))),
                },
            },
        }
    }
}

/// Where an attachment comes from: bytes handed over in base64, or a local
/// file.
pub enum AttachmentSource {
    Data { file_name: String, data_base64: String },
    LocalPath(String),
}

impl AttachmentSource {
    /// The attachment's name and bytes: decoded at once from base64, or
    /// read from the local file (see `decode_attachment_spec` and
    /// `local_start_spec`).
    pub fn read(self) -> (r: LocalReadStep)
        ensures
            match self {
                AttachmentSource::Data { file_name, data_base64 } => match decode_attachment_spec(file_name@, data_base64@) {
                    Ok(d) => r@ == LocalReadStepV::Finished(Ok((file_name@, d))),
                    Err(e) => r@ == local_fail(e),
                },
                AttachmentSource::LocalPath(p) => r@ == local_start_spec(p@),
            },
    {
        match self {
            AttachmentSource::Data { file_name, data_base64 } => LocalReadStep::Finished(decode_attachment(file_name, data_base64)),
            AttachmentSource::LocalPath(p) => read_attachment(p),
        }
    }
}

/// The body of a request to the remote agent.
pub enum AgentPayload {
    AttachBegin { session_id: String, file_name: String, size_bytes: u64, sha256: String },
    AttachChunk { upload_id: String, offset: u64, data_base64: String },
    /// The body of the finish and abort requests of an upload.
    AttachUpload { upload_id: String },
    ReadBytes { root_path: String, relative_path: String, offset: u64, length: u64 },
    WriteBytes {
        root_path: String,
        parent_path: String,
        name: String,
        data_base64: String,
        overwrite: bool,
        offset: u64,
    },
}

pub enum AgentPayloadV {
    AttachBegin { session_id: Seq<char>, file_name: Seq<char>, size_bytes: u64, sha256: Seq<char> },
    AttachChunk { upload_id: Seq<char>, offset: u64, data_base64: Seq<char> },
    AttachUpload { upload_id: Seq<char> },
    ReadBytes { root_path: Seq<char>, relative_path: Seq<char>, offset: u64, length: u64 },
    WriteBytes {
        root_path: Seq<char>,
        parent_path: Seq<char>,
        name: Seq<char>,
        data_base64: Seq<char>,
        overwrite: bool,
        offset: u64,
    },
}

impl View for AgentPayload {
    type V = AgentPayloadV;

    open spec fn view(&self) -> AgentPayloadV {
        match self {
            AgentPayload::AttachBegin { session_id, file_name, size_bytes, sha256 } => AgentPayloadV::AttachBegin {
                session_id: session_id@,
                file_name: file_name@,
                size_bytes: *size_bytes,
                sha256: sha256@,
            },
            AgentPayload::AttachChunk { upload_id, offset, data_base64 } => AgentPayloadV::AttachChunk {
                upload_id: upload_id@,
                offset: *offset,
                data_base64: data_base64@,
            },
            AgentPayload::AttachUpload { upload_id } => AgentPayloadV::AttachUpload { upload_id: upload_id@ },
            AgentPayload::ReadBytes { root_path, relative_path, offset, length } => AgentPayloadV::ReadBytes {
                root_path: root_path@,
                relative_path: relative_path@,
                offset: *offset,
                length: *length,
            },
            AgentPayload::WriteBytes { root_path, parent_path, name, data_base64, overwrite, offset } =>
                AgentPayloadV::WriteBytes {
                root_path: root_path@,
                parent_path: parent_path@,
                name: name@,
                data_base64: data_base64@,
                overwrite: *overwrite,
                offset: *offset,
            },
        }
    }
}

/// A request to the remote agent: its kind and its body.
pub struct AgentCall {
    pub kind: String,
    pub payload: AgentPayload,
}

pub struct AgentCallV {
    pub kind: Seq<char>,
    pub payload: AgentPayloadV,
}

impl View for AgentCall {
    type V = AgentCallV;

    open spec fn view(&self) -> AgentCallV {
        AgentCallV { kind: self.kind@, payload: self.payload@ }
    }
}

/// The fields of an agent's response that are read; each is `None` when
/// the response lacks it or it has another type.
pub struct AgentFields {
    pub upload_id: Option<String>,
    pub received_bytes: Option<u64>,
    pub size_bytes: Option<u64>,
    pub path: Option<String>,
    pub name: Option<String>,
    pub data_base64: Option<String>,
    pub eof: Option<bool>,
}

pub struct AgentFieldsV {
    pub upload_id: Option<Seq<char>>,
    pub received_bytes: Option<u64>,
    pub size_bytes: Option<u64>,
    pub path: Option<Seq<char>>,
    pub name: Option<Seq<char>>,
    pub data_base64: Option<Seq<char>>,
    pub eof: Option<bool>,
}

pub open spec fn ostr(o: Option<String>) -> Option<Seq<char>> {
    match o {
        Some(s) => Some(s@),
        None => None,
    }
}

impl View for AgentFields {
    type V = AgentFieldsV;

    open spec fn view(&self) -> AgentFieldsV {
        AgentFieldsV {
            upload_id: ostr(self.upload_id),
            received_bytes: self.received_bytes,
            size_bytes: self.size_bytes,
            path: ostr(self.path),
            name: ostr(self.name),
            data_base64: ostr(self.data_base64),
            eof: self.eof,
        }
    }
}

pub open spec fn reply_view(r: Result<AgentFields, String>) -> Result<AgentFieldsV, Seq<char>> {
    match r {
        Ok(f) => Ok(f@),
        Err(e) => Err(e@),
    }
}

/// A hexadecimal digit, in either case.
pub open spec fn uuid_hex_digit(c: char) -> bool {
    ('0' <= c <= '9') || ('a' <= c <= 'f') || ('A' <= c <= 'F')
}

/// Thirty-two hexadecimal digits.
pub open spec fn uuid_simple_text(s: Seq<char>) -> bool {
    s.len() == 32 && forall|i: int| 0 <= i < 32 ==> #[trigger] uuid_hex_digit(s[i])
}

/// The hyphenated form: groups of 8, 4, 4, 4 and 12 hexadecimal digits
/// joined by hyphens.
pub open spec fn uuid_hyphenated_text(s: Seq<char>) -> bool {
    &&& s.len() == 36
    &&& forall|i: int|
        0 <= i < 36 ==> if i == 8 || i == 13 || i == 18 || i == 23 {
            s[i] == '-'
        } else {
            #[trigger] uuid_hex_digit(s[i])
        }
}

/// `urn:uuid:` in any mix of ASCII cases.
pub open spec fn uuid_urn_prefix(s: Seq<char>) -> bool {
    &&& s.len() == 9
    &&& (s[0] == 'u' || s[0] == 'U') && (s[1] == 'r' || s[1] == 'R') && (s[2] == 'n' || s[2] == 'N')
    &&& s[3] == ':'
    &&& (s[4] == 'u' || s[4] == 'U') && (s[5] == 'u' || s[5] == 'U') && (s[6] == 'i' || s[6] == 'I')
    &&& (s[7] == 'd' || s[7] == 'D')
    &&& s[8] == ':'
}

/// The texts `uuid::Uuid::parse_str` accepts: the simple form, the
/// hyphenated form, the hyphenated form in braces, and the hyphenated form
/// after a `urn:uuid:` prefix. Each of them is ASCII, so its length in
/// characters is its length in bytes, which the crate goes by.
pub open spec fn uuid_text_parses(s: Seq<char>) -> bool {
    ||| uuid_simple_text(s)
    ||| uuid_hyphenated_text(s)
    ||| (s.len() == 38 && s[0] == '{' && s[37] == '}' && uuid_hyphenated_text(s.subrange(1, 37)))
    ||| (s.len() == 45 && uuid_urn_prefix(s.subrange(0, 9)) && uuid_hyphenated_text(s.subrange(9, 45)))
}

/// `uuid::Uuid::parse_str(s).is_ok()`: whether the text spells a UUID in
/// one of the forms the crate reads (see `uuid_text_parses`).
#[verifier::external_body]
fn uuid_parses(s: &str) -> (r: bool)
    ensures
        r == uuid_text_parses(s@),
{
    uuid::Uuid::parse_str(s).is_ok()
}

/// Where an attachment upload stands: the reply it waits for.
#[derive(Clone, Copy)]
pub enum UploadPhase {
    /// To the begin request of the any-file protocol.
    BeginSent,
    /// To the begin request of the legacy image protocol.
    LegacyBeginSent,
    /// To a chunk.
    ChunkSent,
    /// To the finish request.
    FinishSent,
    /// To the abort request sent after a failure.
    Aborting,
}

/// An attachment upload in progress.
pub struct AttachUpload {
    pub session_id: String,
    pub file_name: String,
    pub data: Vec<u8>,
    pub sha256: String,
    pub protocol: AttachmentProtocol,
    pub phase: UploadPhase,
    pub upload_id: String,
    /// How many bytes the agent has acknowledged.
    pub offset: usize,
    /// The end of the chunk in flight.
    pub expected: usize,
    pub error: String,
}

pub struct AttachUploadV {
    pub session_id: Seq<char>,
    pub file_name: Seq<char>,
    pub data: Seq<u8>,
    pub sha256: Seq<char>,
    pub protocol: AttachmentProtocol,
    pub phase: UploadPhase,
    pub upload_id: Seq<char>,
    pub offset: int,
    pub expected: int,
    pub error: Seq<char>,
}

impl View for AttachUpload {
    type V = AttachUploadV;

    open spec fn view(&self) -> AttachUploadV {
        AttachUploadV {
            session_id: self.session_id@,
            file_name: self.file_name@,
            data: self.data@,
            sha256: self.sha256@,
            protocol: self.protocol,
            phase: self.phase,
            upload_id: self.upload_id@,
            offset: self.offset as int,
            expected: self.expected as int,
            error: self.error@,
        }
    }
}

pub enum UploadStep {
    Ask(AttachUpload, AgentCall),
    /// The attachment's path on the agent's side, or the error.
    Finished(Result<String, String>),
}

pub enum UploadStepV {
    Ask(AttachUploadV, AgentCallV),
    Finished(Result<Seq<char>, Seq<char>>),
}

impl View for UploadStep {
    type V = UploadStepV;

    open spec fn view(&self) -> UploadStepV {
        match self {
            UploadStep::Ask(m, c) => UploadStepV::Ask(m@, c@),
            UploadStep::Finished(r) => UploadStepV::Finished(
                match r {
                    Ok(p) => Ok(p@),
                    Err(e) => Err(e@),
                },
            ),
        }
    }
}

pub open spec fn begin_call(m: AttachUploadV, p: AttachmentProtocol) -> AgentCallV {
    AgentCallV {
        kind: kind_spec(p, "Begin"@),
        payload: AgentPayloadV::AttachBegin {
            session_id: m.session_id,
            file_name: m.file_name,
            size_bytes: m.data.len() as u64,
            sha256: m.sha256,
        },
    }
}

/// The end of the chunk that starts at `offset`: 512 KiB on, or the end of
/// the data.
pub open spec fn chunk_end(offset: int, len: int) -> int {
    if offset + ATTACHMENT_CHUNK_BYTES <= len {
        offset + ATTACHMENT_CHUNK_BYTES
    } else {
        len
    }
}

/// Send the next chunk, or the finish request once all bytes are
/// acknowledged.
pub open spec fn send_spec(m: AttachUploadV) -> UploadStepV {
    if m.offset < m.data.len() {
        let e = chunk_end(m.offset, m.data.len() as int);
        UploadStepV::Ask(
            AttachUploadV { phase: UploadPhase::ChunkSent, expected: e, ..m },
            AgentCallV {
                kind: kind_spec(m.protocol, "Chunk"@),
                payload: AgentPayloadV::AttachChunk {
                    upload_id: m.upload_id,
                    offset: m.offset as u64,
                    data_base64: b64_encode(m.data.subrange(m.offset, e)),
                },
            },
        )
    } else {
        UploadStepV::Ask(
            AttachUploadV { phase: UploadPhase::FinishSent, ..m },
            AgentCallV {
                kind: kind_spec(m.protocol, "Finish"@),
                payload: AgentPayloadV::AttachUpload { upload_id: m.upload_id },
            },
        )
    }
}

/// Ask the agent to abort the upload, then fail with `e`.
pub open spec fn abort_spec(m: AttachUploadV, e: Seq<char>) -> UploadStepV {
    UploadStepV::Ask(
        AttachUploadV { phase: UploadPhase::Aborting, error: e, ..m },
        AgentCallV {
            kind: kind_spec(m.protocol, "Abort"@),
            payload: AgentPayloadV::AttachUpload { upload_id: m.upload_id },
        },
    )
}

/// The upload id a begin response carries, when `parses` tells that it
/// spells a UUID: the chunks follow; else the response is refused.
pub open spec fn accept_spec(m: AttachUploadV, id: Option<Seq<char>>, parses: bool) -> UploadStepV {
    match id {
        Some(s) => if parses {
            send_spec(AttachUploadV { upload_id: s, offset: 0, ..m })
        } else {
            UploadStepV::Finished(Err("attachment_begin_response_invalid"@))
        },
        None => UploadStepV::Finished(Err("attachment_begin_response_invalid"@)),
    }
}

pub open spec fn id_parses(id: Option<Seq<char>>) -> bool {
    id matches Some(s) && uuid_text_parses(s)
}

/// One step of an upload with the agent's reply `r` (an error message when
/// the request failed).
pub open spec fn upload_step_spec(m: AttachUploadV, r: Result<AgentFieldsV, Seq<char>>) -> UploadStepV {
    match m.phase {
        UploadPhase::BeginSent => match r {
            Ok(f) => accept_spec(m, f.upload_id, id_parses(f.upload_id)),
            Err(e) => if e == "ssh_agent_capability_missing:fileAttachAny"@ && fallback_spec(m.file_name, m.data) {
                UploadStepV::Ask(
                    AttachUploadV { protocol: AttachmentProtocol::LegacyImage, phase: UploadPhase::LegacyBeginSent, ..m },
                    begin_call(m, AttachmentProtocol::LegacyImage),
                )
            } else {
                UploadStepV::Finished(Err(e))
            },
        },
        UploadPhase::LegacyBeginSent => match r {
            Ok(f) => accept_spec(m, f.upload_id, id_parses(f.upload_id)),
            Err(e) => UploadStepV::Finished(Err(e)),
        },
        UploadPhase::ChunkSent => match r {
            Err(e) => abort_spec(m, e),
            Ok(f) => if !(f.received_bytes matches Some(n) && n == m.expected) {
                abort_spec(m, "attachment_chunk_response_invalid"@)
            } else {
                send_spec(AttachUploadV { offset: m.expected, ..m })
            },
        },
        UploadPhase::FinishSent => match r {
            Err(e) => abort_spec(m, e),
            Ok(f) => if !(f.size_bytes matches Some(n) && n == m.data.len()) {
                abort_spec(m, "attachment_finish_response_invalid"@)
            } else {
                match f.path {
                    None => abort_spec(m, "attachment_finish_response_invalid"@),
                    Some(p) => if !remote_path_ok(p) {
                        abort_spec(m, "attachment_remote_path_invalid"@)
                    } else {
                        UploadStepV::Finished(Ok(p))
                    },
                }
            },
        },
        UploadPhase::Aborting => UploadStepV::Finished(Err(m.error)),
    }
}

/// How an upload of `data` as `file_name` into session `session_id` starts:
/// the checks on the plan, the name and the bytes, then the begin request
/// of the any-file protocol with the bytes' SHA-256.
pub open spec fn upload_start_spec(plan: SshLaunchPlan, session_id: Seq<char>, file_name: Seq<char>, data: Seq<u8>) -> UploadStepV {
    if !plan_ok(plan) {
        UploadStepV::Finished(Err("remote_file_plan_invalid"@))
    } else if !attachment_name_ok(file_name) {
        UploadStepV::Finished(Err("attachment_name_invalid"@))
    } else if bytes_check(data.len()) is Err {
        UploadStepV::Finished(Err(bytes_check(data.len())->Err_0))
    } else {
        let m = AttachUploadV {
            session_id,
            file_name,
            data,
            sha256: sha256_hex(data),
            protocol: AttachmentProtocol::AnyFile,
            phase: UploadPhase::BeginSent,
            upload_id: Seq::empty(),
            offset: 0,
            expected: 0,
            error: Seq::empty(),
        };
        UploadStepV::Ask(m, begin_call(m, AttachmentProtocol::AnyFile))
    }
}

fn slice_copy(v: &Vec<u8>, from: usize, to: usize) -> (r: Vec<u8>)
    requires
        from <= to <= v@.len(),
    ensures
        r@ == v@.subrange(from as int, to as int),
{
    let mut out: Vec<u8> = Vec::new();
    let mut i = from;
    while i < to
        invariant
            from <= i <= to <= v@.len(),
            out@ == v@.subrange(from as int, i as int),
        decreases to - i,
    {
        out.push(v[i]);
        proof {
            assert(v@.subrange(from as int, i + 1) =~= v@.subrange(from as int, i as int).push(v@[i as int]));
        }
        i = i + 1;
    }
    out
}

impl AttachUpload {
    fn begin_call(&self, p: AttachmentProtocol) -> (c: AgentCall)
        ensures
            c@ == begin_call(self@, p),
    {
        AgentCall {
            kind: p.kind("Begin"),
            payload: AgentPayload::AttachBegin {
                session_id: copy_string(self.session_id.as_str()),
                file_name: copy_string(self.file_name.as_str()),
                size_bytes: self.data.len() as u64,
                sha256: copy_string(self.sha256.as_str()),
            },
        }
    }

    fn send(self) -> (r: UploadStep)
        ensures
            r@ == send_spec(self@),
    {
        if self.offset < self.data.len() {
            let e = if self.data.len() - self.offset >= ATTACHMENT_CHUNK_BYTES {
                self.offset + ATTACHMENT_CHUNK_BYTES
            } else {
                self.data.len()
            };
            let chunk = slice_copy(&self.data, self.offset, e);
            let call = AgentCall {
                kind: self.protocol.kind("Chunk"),
                payload: AgentPayload::AttachChunk {
                    upload_id: copy_string(self.upload_id.as_str()),
                    offset: self.offset as u64,
                    data_base64: standard_encode(chunk.as_slice()),
                },
            };
            UploadStep::Ask(AttachUpload { phase: UploadPhase::ChunkSent, expected: e, ..self }, call)
        } else {
            let call = AgentCall {
                kind: self.protocol.kind("Finish"),
                payload: AgentPayload::AttachUpload { upload_id: copy_string(self.upload_id.as_str()) },
            };
            UploadStep::Ask(AttachUpload { phase: UploadPhase::FinishSent, ..self }, call)
        }
    }

    fn abort(self, e: String) -> (r: UploadStep)
        ensures
            r@ == abort_spec(self@, e@),
    {
        let call = AgentCall {
            kind: self.protocol.kind("Abort"),
            payload: AgentPayload::AttachUpload { upload_id: copy_string(self.upload_id.as_str()) },
        };
        UploadStep::Ask(AttachUpload { phase: UploadPhase::Aborting, error: e, ..self }, call)
    }

    /// Takes the upload id a begin response carries, given whether it
    /// parses as a UUID (see `accept_spec`).
    pub fn accept_upload_id(self, id: Option<String>, parses: bool) -> (r: UploadStep)
        ensures
            r@ == accept_spec(self@, ostr(id), parses),
    {
        match id {
            Some(s) => {
                if parses {
                    AttachUpload { upload_id: s, offset: 0, ..self }.send()
                } else {
                    UploadStep::Finished(Err(String::from_str("attachment_begin_response_invalid")))
                }
            },
            None => UploadStep::Finished(Err(String::from_str("attachment_begin_response_invalid"))),
        }
    }

    fn accept(self, id: Option<String>) -> (r: UploadStep)
        ensures
            r@ == accept_spec(self@, ostr(id), id_parses(ostr(id))),
    {
        let parses = match &id {
            Some(s) => uuid_parses(s.as_str()),
            None => false,
        };
        self.accept_upload_id(id, parses)
    }

    /// One step with the agent's reply to the last request (see
    /// `upload_step_spec`).
    pub fn resume(self, reply: Result<AgentFields, String>) -> (r: UploadStep)
        ensures
            r@ == upload_step_spec(self@, reply_view(reply)),
    {
        match self.phase {
            UploadPhase::BeginSent => match reply {
                Ok(f) => self.accept(f.upload_id),
                Err(e) => {
                    if crate::text::same_text(e.as_str(), "ssh_agent_capability_missing:fileAttachAny")
                        && can_fallback_to_legacy_image(self.file_name.as_str(), self.data.as_slice()) {
                        let call = self.begin_call(AttachmentProtocol::LegacyImage);
                        UploadStep::Ask(
                            AttachUpload { protocol: AttachmentProtocol::LegacyImage, phase: UploadPhase::LegacyBeginSent, ..self },
                            call,
                        )
                    } else {
                        UploadStep::Finished(Err(e))
                    }
                },
            },
            UploadPhase::LegacyBeginSent => match reply {
                Ok(f) => self.accept(f.upload_id),
                Err(e) => UploadStep::Finished(Err(e)),
            },
            UploadPhase::ChunkSent => match reply {
                Err(e) => self.abort(e),
                Ok(f) => {
                    let ok = match f.received_bytes {
                        Some(n) => n as u128 == self.expected as u128,
                        None => false,
                    };
                    if !ok {
                        return self.abort(String::from_str("attachment_chunk_response_invalid"));
                    }
                    let e = self.expected;
                    AttachUpload { offset: e, ..self }.send()
                },
            },
            UploadPhase::FinishSent => match reply {
                Err(e) => self.abort(e),
                Ok(f) => {
                    let ok = match f.size_bytes {
                        Some(n) => n as u128 == self.data.len() as u128,
                        None => false,
                    };
                    if !ok {
                        return self.abort(String::from_str("attachment_finish_response_invalid"));
                    }
                    match f.path {
                        None => self.abort(String::from_str("attachment_finish_response_invalid")),
                        Some(p) => match validate_remote_attachment_path(p.as_str()) {
                            Err(e) => self.abort(e),
                            Ok(()) => UploadStep::Finished(Ok(p)),
                        },
                    }
                },
            },
            UploadPhase::Aborting => UploadStep::Finished(Err(self.error)),
        }
    }
}

/// Starts uploading `data` as `file_name` into session `session_id` (see
/// `upload_start_spec`).
pub fn upload_attachment(plan: &SshLaunchPlan, session_id: String, file_name: String, data: Vec<u8>) -> (r: UploadStep)
    ensures
        r@ == upload_start_spec(*plan, session_id@, file_name@, data@),
{
    if let Err(e) = validate_plan(plan) {
        return UploadStep::Finished(Err(e));
    }
    if let Err(e) = validate_attachment_name(file_name.as_str()) {
        return UploadStep::Finished(Err(e));
    }
    if let Err(e) = validate_attachment_bytes(data.as_slice()) {
        return UploadStep::Finished(Err(e));
    }
    let sha256 = sha256_hex_of(data.as_slice());
    let m = AttachUpload {
        session_id,
        file_name,
        data,
        sha256,
        protocol: AttachmentProtocol::AnyFile,
        phase: UploadPhase::BeginSent,
        upload_id: String::new(),
        offset: 0,
        expected: 0,
        error: String::new(),
    };
    let call = m.begin_call(AttachmentProtocol::AnyFile);
    UploadStep::Ask(m, call)
}

/// What reading a managed file in chunks gives: its name, its path as
/// asked, its size and its bytes in base64.
pub struct ManagedReadResult {
    pub name: String,
    pub relative_path: String,
    pub size_bytes: u64,
    pub data_base64: String,
}

/// A managed file being read chunk by chunk.
pub struct ManagedRead {
    pub root_path: String,
    pub relative_path: String,
    pub collected: Vec<u8>,
    pub name: String,
}

pub struct ManagedReadV {
    pub root_path: Seq<char>,
    pub relative_path: Seq<char>,
    pub collected: Seq<u8>,
    pub name: Seq<char>,
}

impl View for ManagedRead {
    type V = ManagedReadV;

    open spec fn view(&self) -> ManagedReadV {
        ManagedReadV {
            root_path: self.root_path@,
            relative_path: self.relative_path@,
            collected: self.collected@,
            name: self.name@,
        }
    }
}

pub enum ManagedReadStep {
    Ask(ManagedRead, AgentCall),
    Finished(Result<ManagedReadResult, String>),
}

pub enum ManagedReadStepV {
    Ask(ManagedReadV, AgentCallV),
    /// Name, relative path, size and base64 bytes, or the error.
    Finished(Result<(Seq<char>, Seq<char>, u64, Seq<char>), Seq<char>>),
}

impl View for ManagedReadStep {
    type V = ManagedReadStepV;

    open spec fn view(&self) -> ManagedReadStepV {
        match self {
            ManagedReadStep::Ask(m, c) => ManagedReadStepV::Ask(m@, c@),
            ManagedReadStep::Finished(r) => ManagedReadStepV::Finished(
                match r {
                    Ok(x) => Ok((x.name@, x.relative_path@, x.size_bytes, x.data_base64@)),
                    Err(e) => Err(e@),
                },
            ),
        }
    }
}

/// The request for the chunk at the end of what was read so far.
pub open spec fn read_call(m: ManagedReadV) -> AgentCallV {
    AgentCallV {
        kind: "fileReadBytes"@,
        payload: AgentPayloadV::ReadBytes {
            root_path: m.root_path,
            relative_path: m.relative_path,
            offset: m.collected.len() as u64,
            length: ATTACHMENT_CHUNK_BYTES as u64,
        },
    }
}

/// How a chunked read of `relative_path` under `root_path` starts.
pub open spec fn managed_read_start_spec(plan: SshLaunchPlan, root_path: Seq<char>, relative_path: Seq<char>) -> ManagedReadStepV {
    if !plan_ok(plan) {
        ManagedReadStepV::Finished(Err("remote_file_plan_invalid"@))
    } else {
        let m = ManagedReadV { root_path, relative_path, collected: Seq::empty(), name: Seq::empty() };
        ManagedReadStepV::Ask(m, read_call(m))
    }
}

/// One step of a chunked read with the agent's reply `r`: the name is taken
/// from the first reply that is read; the file may be at most 20 MiB; the
/// read ends at the end of file or once the size is reached, and a chunk
/// that brings nothing before then is an error.
pub open spec fn managed_read_step_spec(m: ManagedReadV, r: Result<AgentFieldsV, Seq<char>>) -> ManagedReadStepV {
    match r {
        Err(e) => ManagedReadStepV::Finished(Err(e)),
        Ok(f) => {
            let name = if m.name.len() == 0 {
                match f.name {
                    Some(n) => n,
                    None => Seq::empty(),
                }
            } else {
                m.name
            };
            match f.size_bytes {
                None => ManagedReadStepV::Finished(Err("remote_file_read_failed"@)),
                Some(total) => if total > MAX_CLIENT_ATTACHMENT_BYTES {
                    ManagedReadStepV::Finished(Err("remote_file_too_large"@))
                } else {
                    match f.data_base64 {
                        None => ManagedReadStepV::Finished(Err("remote_file_bytes_invalid"@)),
                        Some(b) => match b64_decode(b) {
                            None => ManagedReadStepV::Finished(Err("remote_file_bytes_invalid"@)),
                            Some(chunk) => if m.collected.len() + chunk.len() > MAX_CLIENT_ATTACHMENT_BYTES {
                                ManagedReadStepV::Finished(Err("remote_file_too_large"@))
                            } else {
                                let collected = m.collected + chunk;
                                let eof = match f.eof {
                                    Some(x) => x,
                                    None => false,
                                };
                                if eof || collected.len() >= total {
                                    ManagedReadStepV::Finished(
                                        Ok((name, m.relative_path, collected.len() as u64, b64_encode(collected))),
                                    )
                                } else if chunk.len() == 0 {
                                    ManagedReadStepV::Finished(Err("remote_file_read_failed"@))
                                } else {
                                    let m2 = ManagedReadV { collected, name, ..m };
                                    ManagedReadStepV::Ask(m2, read_call(m2))
                                }
                            },
                        },
                    }
                },
            }
        },
    }
}

/// Starts reading the managed file `relative_path` under `root_path` in
/// chunks (see `managed_read_start_spec`).
pub fn read_managed_file_bytes(plan: &SshLaunchPlan, root_path: String, relative_path: String) -> (r: ManagedReadStep)
    ensures
        r@ == managed_read_start_spec(*plan, root_path@, relative_path@),
{
    if let Err(e) = validate_plan(plan) {
        return ManagedReadStep::Finished(Err(e));
    }
    let m = ManagedRead { root_path, relative_path, collected: Vec::new(), name: String::new() };
    proof {
        assert(m@.collected =~= Seq::<u8>::empty());
    }
    let call = m.call();
    ManagedReadStep::Ask(m, call)
}

impl ManagedRead {
    fn call(&self) -> (c: AgentCall)
        ensures
            c@ == read_call(self@),
    {
        AgentCall {
            kind: String::from_str("fileReadBytes"),
            payload: AgentPayload::ReadBytes {
                root_path: copy_string(self.root_path.as_str()),
                relative_path: copy_string(self.relative_path.as_str()),
                offset: self.collected.len() as u64,
                length: ATTACHMENT_CHUNK_BYTES as u64,
            },
        }
    }

    /// One step with the agent's reply (see `managed_read_step_spec`).
    pub fn resume(self, reply: Result<AgentFields, String>) -> (r: ManagedReadStep)
        ensures
            r@ == managed_read_step_spec(self@, reply_view(reply)),
    {
        let f = match reply {
            Err(e) => return ManagedReadStep::Finished(Err(e)),
            Ok(f) => f,
        };
        let name = if self.name.as_str().is_empty() {
            match f.name {
                Some(n) => n,
                None => String::new(),
            }
        } else {
            copy_string(self.name.as_str())
        };
        let total = match f.size_bytes {
            None => return ManagedReadStep::Finished(Err(String::from_str("remote_file_read_failed"))),
            Some(t) => t,
        };
        if total > MAX_CLIENT_ATTACHMENT_BYTES as u64 {
            return ManagedReadStep::Finished(Err(String::from_str("remote_file_too_large")));
        }
        let b = match f.data_base64 {
            None => return ManagedReadStep::Finished(Err(String::from_str("remote_file_bytes_invalid"))),
            Some(b) => b,
        };
        let chunk = match decode_standard(b.as_str()) {
            None => return ManagedReadStep::Finished(Err(String::from_str("remote_file_bytes_invalid"))),
            Some(c) => c,
        };
        if chunk.len() > MAX_CLIENT_ATTACHMENT_BYTES || self.collected.len() > MAX_CLIENT_ATTACHMENT_BYTES - chunk.len() {
            return ManagedReadStep::Finished(Err(String::from_str("remote_file_too_large")));
        }
        let mut collected = self.collected;
        let ghost before = collected@;
        let mut i: usize = 0;
        while i < chunk.len()
            invariant
                i <= chunk@.len(),
                collected@ == before + chunk@.take(i as int),
            decreases chunk.len() - i,
        {
            collected.push(chunk[i]);
            proof {
                assert(chunk@.take(i + 1) =~= chunk@.take(i as int).push(chunk@[i as int]));
            }
            i = i + 1;
        }
        proof {
            assert(chunk@.take(chunk@.len() as int) =~= chunk@);
        }
        let eof = match f.eof {
            Some(x) => x,
            None => false,
        };
        if eof || collected.len() as u64 >= total {
            let data_base64 = standard_encode(collected.as_slice());
            let size_bytes = collected.len() as u64;
            return ManagedReadStep::Finished(Ok(ManagedReadResult {
                name,
                relative_path: self.relative_path,
                size_bytes,
                data_base64,
            }));
        }
        if chunk.len() == 0 {
            return ManagedReadStep::Finished(Err(String::from_str("remote_file_read_failed")));
        }
        let m = ManagedRead { collected, name, ..self };
        let call = m.call();
        ManagedReadStep::Ask(m, call)
    }
}

/// A managed file being written chunk by chunk.
pub struct ManagedWrite {
    pub root_path: String,
    pub parent_path: String,
    pub name: String,
    pub data: Vec<u8>,
    pub overwrite: bool,
    /// The end of the chunk in flight.
    pub sent: usize,
}

pub struct ManagedWriteV {
    pub root_path: Seq<char>,
    pub parent_path: Seq<char>,
    pub name: Seq<char>,
    pub data: Seq<u8>,
    pub overwrite: bool,
    pub sent: int,
}

impl View for ManagedWrite {
    type V = ManagedWriteV;

    open spec fn view(&self) -> ManagedWriteV {
        ManagedWriteV {
            root_path: self.root_path@,
            parent_path: self.parent_path@,
            name: self.name@,
            data: self.data@,
            overwrite: self.overwrite,
            sent: self.sent as int,
        }
    }
}

pub enum ManagedWriteStep {
    Ask(ManagedWrite, AgentCall),
    /// `Ok` when the agent accepted every request: the reply to the last
    /// one is the result.
    Finished(Result<(), String>),
}

pub enum ManagedWriteStepV {
    Ask(ManagedWriteV, AgentCallV),
    Finished(Result<(), Seq<char>>),
}

impl View for ManagedWriteStep {
    type V = ManagedWriteStepV;

    open spec fn view(&self) -> ManagedWriteStepV {
        match self {
            ManagedWriteStep::Ask(m, c) => ManagedWriteStepV::Ask(m@, c@),
            ManagedWriteStep::Finished(r) => ManagedWriteStepV::Finished(
                match r {
                    Ok(()) => Ok(()),
                    Err(e) => Err(e@),
                },
            ),
        }
    }
}

pub open spec fn write_call(m: ManagedWriteV, from: int, to: int) -> AgentCallV {
    AgentCallV {
        kind: "fileWriteBytes"@,
        payload: AgentPayloadV::WriteBytes {
            root_path: m.root_path,
            parent_path: m.parent_path,
            name: m.name,
            data_base64: b64_encode(m.data.subrange(from, to)),
            overwrite: m.overwrite,
            offset: from as u64,
        },
    }
}

/// Send the chunk that starts at `from`.
pub open spec fn write_chunk_spec(m: ManagedWriteV, from: int) -> ManagedWriteStepV {
    let e = chunk_end(from, m.data.len() as int);
    ManagedWriteStepV::Ask(ManagedWriteV { sent: e, ..m }, write_call(m, from, e))
}

/// How a chunked write of `data` as `name` under `parent_path` starts:
/// over 20 MiB is refused; empty data is one write of nothing at offset 0;
/// else the first 512 KiB chunk.
pub open spec fn managed_write_start_spec(
    root_path: Seq<char>,
    parent_path: Seq<char>,
    name: Seq<char>,
    data: Seq<u8>,
    overwrite: bool,
) -> ManagedWriteStepV {
    let m = ManagedWriteV { root_path, parent_path, name, data, overwrite, sent: 0 };
    if data.len() > MAX_CLIENT_ATTACHMENT_BYTES {
        ManagedWriteStepV::Finished(Err("remote_file_too_large"@))
    } else {
        write_chunk_spec(m, 0)
    }
}

/// One step of a chunked write with the agent's reply: a failure ends it;
/// else the next chunk goes, or the write is done.
pub open spec fn managed_write_step_spec(m: ManagedWriteV, r: Result<AgentFieldsV, Seq<char>>) -> ManagedWriteStepV {
    match r {
        Err(e) => ManagedWriteStepV::Finished(Err(e)),
        Ok(_) => if m.sent < m.data.len() {
            write_chunk_spec(m, m.sent)
        } else {
            ManagedWriteStepV::Finished(Ok(()))
        },
    }
}

impl ManagedWrite {
    fn chunk(self, from: usize) -> (r: ManagedWriteStep)
        requires
            from <= self@.data.len(),
        ensures
            r@ == write_chunk_spec(self@, from as int),
    {
        let e = if self.data.len() - from >= ATTACHMENT_CHUNK_BYTES {
            from + ATTACHMENT_CHUNK_BYTES
        } else {
            self.data.len()
        };
        let part = slice_copy(&self.data, from, e);
        let call = AgentCall {
            kind: String::from_str("fileWriteBytes"),
            payload: AgentPayload::WriteBytes {
                root_path: copy_string(self.root_path.as_str()),
                parent_path: copy_string(self.parent_path.as_str()),
                name: copy_string(self.name.as_str()),
                data_base64: standard_encode(part.as_slice()),
                overwrite: self.overwrite,
                offset: from as u64,
            },
        };
        ManagedWriteStep::Ask(ManagedWrite { sent: e, ..self }, call)
    }

    /// One step with the agent's reply (see `managed_write_step_spec`).
    pub fn resume(self, reply: Result<AgentFields, String>) -> (r: ManagedWriteStep)
        ensures
            r@ == managed_write_step_spec(self@, reply_view(reply)),
    {
        match reply {
            Err(e) => ManagedWriteStep::Finished(Err(e)),
            Ok(_) => {
                if self.sent < self.data.len() {
                    let from = self.sent;
                    self.chunk(from)
                } else {
                    ManagedWriteStep::Finished(Ok(()))
                }
            },
        }
    }
}

/// Starts writing `data` as `name` under `parent_path` in chunks (see
/// `managed_write_start_spec`).
pub fn write_managed_file_bytes(
    root_path: String,
    parent_path: String,
    name: String,
    data: Vec<u8>,
    overwrite: bool,
) -> (r: ManagedWriteStep)
    ensures
        r@ == managed_write_start_spec(root_path@, parent_path@, name@, data@, overwrite),
{
    if data.len() > MAX_CLIENT_ATTACHMENT_BYTES {
        return ManagedWriteStep::Finished(Err(String::from_str("remote_file_too_large")));
    }
    let m = ManagedWrite { root_path, parent_path, name, data, overwrite, sent: 0 };
    m.chunk(0)
}

/// How a text write goes to the agent: as one `fileWrite` request, or in
/// chunks of bytes under the file's parent and name.
pub enum TextWriteRoute {
    Direct,
    Chunked { parent_path: String, name: String },
}

/// What `ssh_remote_file_write` decides before it calls the agent: content
/// of at most 512 KiB goes directly (after the plan's check); longer
/// content is split into parent and name first, then the plan is checked.
pub open spec fn text_route_spec(plan: SshLaunchPlan, relative_path: Seq<char>, content_len: nat) -> Result<
    Option<(Seq<char>, Seq<char>)>,
    Seq<char>,
> {
    if content_len <= ATTACHMENT_CHUNK_BYTES {
        if !plan_ok(plan) {
            Err("remote_file_plan_invalid"@)
        } else {
            Ok(None)
        }
    } else {
        match split_spec(relative_path) {
            Err(e) => Err(e),
            Ok((p, n)) => if !plan_ok(plan) {
                Err("remote_file_plan_invalid"@)
            } else {
                Ok(Some((p, n)))
            },
        }
    }
}

pub fn route_text_write(plan: &SshLaunchPlan, relative_path: &str, content: &str) -> (r: Result<TextWriteRoute, String>)
    ensures
        match text_route_spec(*plan, relative_path@, encode_utf8(content@).len()) {
            Ok(None) => r matches Ok(TextWriteRoute::Direct),
            Ok(Some((p, n))) => r matches Ok(TextWriteRoute::Chunked { parent_path, name }) && parent_path@ == p
                && name@ == n,
            Err(e) => r matches Err(x) && x@ == e,
        },
{
    if content.as_bytes().len() <= ATTACHMENT_CHUNK_BYTES {
        validate_plan(plan)?;
        return Ok(TextWriteRoute::Direct);
    }
    let (parent_path, name) = split_relative_file(relative_path)?;
    validate_plan(plan)?;
    Ok(TextWriteRoute::Chunked { parent_path, name })
}

/// What `ssh_remote_file_write_bytes` decides before it writes: the plan's
/// check, then the bytes (nothing for empty text), at most 20 MiB.
pub open spec fn write_bytes_data_spec(plan: SshLaunchPlan, data_base64: Seq<char>) -> Result<Seq<u8>, Seq<char>> {
    if !plan_ok(plan) {
        Err("remote_file_plan_invalid"@)
    } else {
        let d = if data_base64.len() == 0 {
            Some(Seq::<u8>::empty())
        } else {
            b64_decode(data_base64)
        };
        match d {
            None => Err("remote_file_bytes_invalid"@),
            Some(v) => if v.len() > MAX_CLIENT_ATTACHMENT_BYTES {
                Err("remote_file_too_large"@)
            } else {
                Ok(v)
            },
        }
    }
}

pub fn decode_write_bytes(plan: &SshLaunchPlan, data_base64: &str) -> (r: Result<Vec<u8>, String>)
    ensures
        match write_bytes_data_spec(*plan, data_base64@) {
            Ok(v) => r matches Ok(d) && d@ == v,
            Err(e) => r matches Err(x) && x@ == e,
        },
{
    validate_plan(plan)?;
    let data = if data_base64.is_empty() {
        Vec::new()
    } else {
        match decode_standard(data_base64) {
            Some(d) => d,
            None => return Err(String::from_str("remote_file_bytes_invalid")),
        }
    };
    if data.len() > MAX_CLIENT_ATTACHMENT_BYTES {
        return Err(String::from_str("remote_file_too_large"));
    }
    Ok(data)
}

/// What holds of an upload between its steps: the acknowledged offset lies
/// within the data, a chunk in flight runs from it to the next 512 KiB
/// boundary or the end, and the finish request goes only once every byte
/// was acknowledged.
pub open spec fn upload_inv(m: AttachUploadV) -> bool {
    &&& 0 <= m.offset <= m.data.len()
    &&& m.phase is ChunkSent ==> m.offset < m.data.len() && m.expected == chunk_end(m.offset, m.data.len() as int)
    &&& m.phase is FinishSent ==> m.offset == m.data.len()
}

/// An upload hands the agent its bytes in order and claims success only
/// for all of them: every chunk it sends is the data from the acknowledged
/// offset to the next 512 KiB boundary (or the end); the next chunk starts
/// where the agent acknowledged the last one; and the upload succeeds only
/// after the agent acknowledged every byte and reported the full size and a
/// path inside its attachment cache.
pub proof fn lemma_upload_sends_data_in_order(
    plan: SshLaunchPlan,
    session_id: Seq<char>,
    file_name: Seq<char>,
    data: Seq<u8>,
    m: AttachUploadV,
    r: Result<AgentFieldsV, Seq<char>>,
)
    ensures
        upload_start_spec(plan, session_id, file_name, data) matches UploadStepV::Ask(m2, _) ==> upload_inv(m2)
            && m2.data == data,
        upload_inv(m) ==> (upload_step_spec(m, r) matches UploadStepV::Ask(m2, c) ==> upload_inv(m2)
            && m2.data == m.data && (c.payload matches AgentPayloadV::AttachChunk { offset, data_base64, .. }
            ==> offset == m2.offset && data_base64 == b64_encode(m.data.subrange(m2.offset, m2.expected)))),
        upload_inv(m) ==> (upload_step_spec(m, r) matches UploadStepV::Finished(Ok(p)) ==> m.phase is FinishSent
            && m.offset == m.data.len() && (r matches Ok(f) && f.size_bytes == Some(m.data.len() as u64))
            && remote_path_ok(p)),
{
}

/// A chunked write hands the agent the data in order: every request
/// carries the data from where the last one ended to the next 512 KiB
/// boundary (or the end), at that offset, and the write is done only once
/// the end was sent.
pub proof fn lemma_managed_write_in_order(
    root_path: Seq<char>,
    parent_path: Seq<char>,
    name: Seq<char>,
    data: Seq<u8>,
    overwrite: bool,
    m: ManagedWriteV,
    r: Result<AgentFieldsV, Seq<char>>,
)
    ensures
        managed_write_start_spec(root_path, parent_path, name, data, overwrite) matches ManagedWriteStepV::Ask(m2, c)
            ==> m2.sent == chunk_end(0, data.len() as int) && c == write_call(m2, 0, m2.sent),
        0 <= m.sent <= m.data.len() ==> (managed_write_step_spec(m, r) matches ManagedWriteStepV::Ask(m2, c)
            ==> m2.data == m.data && 0 <= m2.sent <= m2.data.len() && m2.sent == chunk_end(m.sent, m.data.len() as int)
            && c == write_call(m2, m.sent, m2.sent)),
        managed_write_step_spec(m, r) matches ManagedWriteStepV::Finished(Ok(())) ==> m.sent >= m.data.len(),
{
}

/// A chunked read keeps what it read in order and never holds more than
/// 20 MiB: every step extends the bytes read so far at their end, the next
/// request asks for the chunk at that end, and a successful read reports
/// at most 20 MiB.
pub proof fn lemma_managed_read_bounded(m: ManagedReadV, r: Result<AgentFieldsV, Seq<char>>)
    requires
        m.collected.len() <= MAX_CLIENT_ATTACHMENT_BYTES,
    ensures
        managed_read_step_spec(m, r) matches ManagedReadStepV::Ask(m2, c) ==> m2.collected.len()
            <= MAX_CLIENT_ATTACHMENT_BYTES && m2.collected.take(m.collected.len() as int) == m.collected
            && m2.collected.len() > m.collected.len() && c == read_call(m2),
        managed_read_step_spec(m, r) matches ManagedReadStepV::Finished(Ok((_, _, size, _))) ==> size
            <= MAX_CLIENT_ATTACHMENT_BYTES,
{
    if let Ok(f) = r {
        if let Some(b) = f.data_base64 {
            if let Some(chunk) = b64_decode(b) {
                assert((m.collected + chunk).take(m.collected.len() as int) =~= m.collected);
            }
        }
    }
}
} // verus!
