//! Creating, renaming, deleting, copying, moving, writing and reading files
//! under a root, for a client that is not trusted to stay inside it.

use vstd::prelude::*;
use crate::disk::{disk_after, keeps_contents, lemma_read_after_write, read_at, write_at};
use crate::encoding::{b64_encode, b64_decode, decode_standard, standard_encode};
use vstd::utf8::encode_utf8;
use crate::files::{RemoteFileEntry, RemoteFileEntryV};
use crate::fsproto::{
    take_bytes, take_done, take_listing, take_meta, take_path, reply_bytes, reply_done,
    reply_listing, reply_meta, reply_path, DirItem, DirItemV, FileMeta, FsReply, FsReplyV,
    FsRequest, FsRequestV, MetaReply, items_view,
};
use crate::paths::{
    check_relative_text, check_root_text, file_name, file_name_spec, join, join_spec, path_within,
    relative_path, relative_spec, relative_text_ok, root_text_ok, within,
};
use crate::text::{chars_of, has_char, same_text, string_of, trim, trim_bounds, trimmed};

verus! {

pub const MAX_MANAGE_BYTES: u64 = 20971520;
pub const MAX_CHUNK_BYTES: usize = 524288;
pub const MAX_TEXT_WRITE_BYTES: usize = 524288;

pub struct FileCreateRequest {
    pub root_path: String,
    pub parent_path: String,
    pub name: String,
    pub overwrite: bool,
    pub kind: String,
}

pub struct FileRenameRequest {
    pub root_path: String,
    pub relative_path: String,
    pub new_name: String,
    pub overwrite: bool,
}

pub struct FileDeleteRequest {
    pub root_path: String,
    pub relative_path: String,
}

pub struct FileTransferRequest {
    pub root_path: String,
    pub source_path: String,
    pub target_parent_path: String,
    pub name: String,
    pub overwrite: bool,
}

pub struct FileWriteTextRequest {
    pub root_path: String,
    pub relative_path: String,
    pub content: String,
}

pub struct FileWriteBytesRequest {
    pub root_path: String,
    pub parent_path: String,
    pub name: String,
    pub data_base64: String,
    pub overwrite: bool,
    pub offset: u64,
}

pub struct FileStatRequest {
    pub root_path: String,
    pub relative_path: String,
}

pub struct FileReadBytesRequest {
    pub root_path: String,
    pub relative_path: String,
    pub offset: u64,
    pub length: u64,
}

/// What `validate_name` gives for a new entry's name: the trimmed name, or
/// the reason it is refused.
pub open spec fn name_check(name: Seq<char>) -> Result<Seq<char>, Seq<char>> {
    let t = trim(name);
    if t.len() == 0 {
        Err("empty_name"@)
    } else if t == "."@ || t == ".."@ {
        Err("invalid_name"@)
    } else if t.contains('/') || t.contains('\\') || t.contains('\0') || t.contains('\r')
        || t.contains('\n') {
        Err("name_contains_separator"@)
    } else {
        Ok(t)
    }
}

pub fn validate_name(name: &str) -> (r: Result<String, String>)
    ensures
        match name_check(name@) {
            Ok(t) => r matches Ok(s) && s@ == t,
            Err(m) => r matches Err(e) && e@ == m,
        },
{
    let t = trimmed(name);
    let ts = t.as_str();
    let chars = chars_of(ts);
    if chars.len() == 0 {
        return Err(String::from_str("empty_name"));
    }
    if same_text(ts, ".") || same_text(ts, "..") {
        return Err(String::from_str("invalid_name"));
    }
    if has_char(&chars, '/') || has_char(&chars, '\\') || has_char(&chars, '\0') || has_char(
        &chars,
        '\r',
    ) || has_char(&chars, '\n') {
        return Err(String::from_str("name_contains_separator"));
    }
    Ok(t)
}

/// The position of the last `/` in `s`, if any.
pub open spec fn last_slash(s: Seq<char>) -> Option<int> {
    if exists|i: int| 0 <= i < s.len() && s[i] == '/' {
        Some(choose|i: int| 0 <= i < s.len() && s[i] == '/' && forall|k: int| i < k < s.len() ==> s[k] != '/')
    } else {
        None
    }
}

pub(crate) fn find_last_slash(s: &Vec<char>) -> (r: Option<usize>)
    ensures
        match last_slash(s@) {
            Some(i) => r == Some(i as usize),
            None => r is None,
        },
        r matches Some(i) ==> i < s@.len() && s@[i as int] == '/' && forall|k: int| i < k < s@.len() ==> s@[k] != '/',
{
    let mut i = s.len();
    while i > 0 && s[i - 1] != '/'
        invariant
            i <= s@.len(),
            forall|k: int| i <= k < s@.len() ==> s@[k] != '/',
        decreases i,
    {
        i = i - 1;
    }
    if i == 0 {
        return None;
    }
    proof {
        let d = (i - 1) as int;
        let c = choose|j: int| 0 <= j < s@.len() && s@[j] == '/' && forall|k: int| j < k < s@.len() ==> s@[k] != '/';
        assert(0 <= d < s@.len() && s@[d] == '/' && forall|k: int| d < k < s@.len() ==> s@[k] != '/');
        if c < d {
            assert(s@[d] != '/');
        }
        if c > d {
            assert(s@[c] != '/');
        }
    }
    Some(i - 1)
}

/// The part of a relative path before its last `/`, or empty.
pub open spec fn parent_of(path: Seq<char>) -> Seq<char> {
    match last_slash(path) {
        Some(i) => path.take(i),
        None => Seq::empty(),
    }
}

pub fn parent_relative(path: &str) -> (r: String)
    ensures
        r@ == parent_of(path@),
{
    let chars = chars_of(path);
    match find_last_slash(&chars) {
        Some(i) => {
            proof {
                assert(chars@.subrange(0, i as int) =~= chars@.take(i as int));
            }
            string_of(&chars, 0, i)
        },
        None => String::new(),
    }
}

/// `s` without leading `/`s.
pub open spec fn strip_leading_slashes(s: Seq<char>) -> Seq<char>
    decreases s.len(),
{
    if s.len() > 0 && s[0] == '/' {
        strip_leading_slashes(s.drop_first())
    } else {
        s
    }
}

proof fn lemma_strip_leading(s: Seq<char>, a: int)
    requires
        0 <= a <= s.len(),
        forall|k: int| 0 <= k < a ==> #[trigger] s[k] == '/',
        a == s.len() || s[a] != '/',
    ensures
        strip_leading_slashes(s) == s.skip(a),
    decreases a,
{
    if a == 0 {
        assert(s.skip(0) =~= s);
    } else {
        assert forall|k: int| 0 <= k < a - 1 implies #[trigger] s.drop_first()[k] == '/' by {
            assert(s.drop_first()[k] == s[k + 1]);
        }
        if a - 1 < s.drop_first().len() {
            assert(s.drop_first()[a - 1] == s[a]);
        }
        lemma_strip_leading(s.drop_first(), a - 1);
        assert(s.drop_first().skip(a - 1) =~= s.skip(a));
    }
}

/// What `split_relative` gives: the parent and the name of a relative file
/// path (trimmed, leading `/`s dropped), split at the last `/`.
pub open spec fn split_spec(path: Seq<char>) -> Result<(Seq<char>, Seq<char>), Seq<char>> {
    let n = strip_leading_slashes(trim(path));
    if n.len() == 0 {
        Err("remote_file_path_invalid"@)
    } else {
        match last_slash(n) {
            Some(i) => Ok((n.take(i), n.skip(i + 1))),
            None => Ok((Seq::empty(), n)),
        }
    }
}

pub fn split_relative(path: &str) -> (r: Result<(String, String), String>)
    ensures
        match split_spec(path@) {
            Ok((p, n)) => r matches Ok((a, b)) && a@ == p && b@ == n,
            Err(m) => r matches Err(e) && e@ == m,
        },
{
    let chars = chars_of(path);
    let (a, b) = trim_bounds(&chars);
    let mut s = a;
    while s < b && chars[s] == '/'
        invariant
            a <= s <= b <= chars@.len(),
            forall|k: int| a <= k < s ==> #[trigger] chars@[k] == '/',
        decreases b - s,
    {
        s = s + 1;
    }
    let n = string_of(&chars, s, b);
    proof {
        let t = chars@.subrange(a as int, b as int);
        assert forall|k: int| 0 <= k < s - a implies #[trigger] t[k] == '/' by {
            assert(t[k] == chars@[k + a]);
        }
        if s < b {
            assert(t[s - a] == chars@[s as int]);
        }
        lemma_strip_leading(t, s - a);
        assert(t.skip(s - a) =~= chars@.subrange(s as int, b as int));
    }
    let nc = chars_of(n.as_str());
    if nc.len() == 0 {
        return Err(String::from_str("remote_file_path_invalid"));
    }
    match find_last_slash(&nc) {
        Some(i) => {
            proof {
                assert(nc@.subrange(0, i as int) =~= nc@.take(i as int));
                assert(nc@.subrange(i + 1, nc@.len() as int) =~= nc@.skip(i + 1));
            }
            Ok((string_of(&nc, 0, i), string_of(&nc, i + 1, nc.len())))
        },
        None => {
            proof {
                assert(nc@.subrange(0, nc@.len() as int) =~= nc@);
            }
            Ok((String::new(), string_of(&nc, 0, nc.len())))
        },
    }
}

/// The bytes a read of a managed file hands back, for a file of `len`
/// bytes: refused when the file is over the size limit, the offset is past
/// its end or the requested length over a chunk; else how many bytes to read
/// (a requested length of 0 asks for a whole chunk).
pub open spec fn read_plan_spec(len: u64, offset: u64, length: u64) -> Result<u64, Seq<char>> {
    let want = if length == 0 { MAX_CHUNK_BYTES as u64 } else { length };
    if len > MAX_MANAGE_BYTES {
        Err("remote_file_too_large"@)
    } else if offset > len {
        Err("remote_file_offset_invalid"@)
    } else if want > MAX_CHUNK_BYTES {
        Err("remote_file_chunk_too_large"@)
    } else if len - offset < want {
        Ok((len - offset) as u64)
    } else {
        Ok(want)
    }
}

pub fn read_plan(len: u64, offset: u64, length: u64) -> (r: Result<u64, String>)
    ensures
        match read_plan_spec(len, offset, length) {
            Ok(n) => r == Ok::<u64, String>(n),
            Err(m) => r matches Err(e) && e@ == m,
        },
{
    let want = if length == 0 { MAX_CHUNK_BYTES as u64 } else { length };
    if len > MAX_MANAGE_BYTES {
        return Err(String::from_str("remote_file_too_large"));
    }
    if offset > len {
        return Err(String::from_str("remote_file_offset_invalid"));
    }
    if want > MAX_CHUNK_BYTES as u64 {
        return Err(String::from_str("remote_file_chunk_too_large"));
    }
    let remaining = len - offset;
    if remaining < want {
        Ok(remaining)
    } else {
        Ok(want)
    }
}

/// The checks a chunk written to a managed file passes before the file
/// system is asked: at most one chunk, not empty past the start, and not
/// ending beyond the size limit.
pub open spec fn write_check_spec(data_len: nat, offset: u64) -> Result<(), Seq<char>> {
    if data_len > MAX_CHUNK_BYTES {
        Err("remote_file_chunk_too_large"@)
    } else if data_len == 0 && offset != 0 {
        Err("attachment_empty"@)
    } else if offset + data_len > MAX_MANAGE_BYTES {
        Err("remote_file_too_large"@)
    } else {
        Ok(())
    }
}

pub fn write_check(data_len: usize, offset: u64) -> (r: Result<(), String>)
    ensures
        match write_check_spec(data_len as nat, offset) {
            Ok(_) => r is Ok,
            Err(m) => r matches Err(e) && e@ == m,
        },
{
    if data_len > MAX_CHUNK_BYTES {
        return Err(String::from_str("remote_file_chunk_too_large"));
    }
    if data_len == 0 && offset != 0 {
        return Err(String::from_str("attachment_empty"));
    }
    match offset.checked_add(data_len as u64) {
        Some(end) => {
            if end > MAX_MANAGE_BYTES {
                return Err(String::from_str("remote_file_too_large"));
            }
        },
        None => return Err(String::from_str("remote_file_too_large")),
    }
    Ok(())
}


/// One managed operation, with what its request carries.
pub enum ManageOp {
    Stat { rel: String },
    Delete { rel: String },
    Create { parent: String, name: String, overwrite: bool, directory: bool },
    Rename { rel: String, new_name: String, overwrite: bool },
    Transfer { source: String, target_parent: String, name: String, overwrite: bool, moving: bool },
    WriteText { rel: String, content: Vec<u8> },
    WriteBytes { parent: String, name: String, data: Vec<u8>, overwrite: bool, offset: u64 },
    ReadBytes { rel: String, offset: u64, length: u64 },
}

pub enum ManageOpV {
    Stat { rel: Seq<char> },
    Delete { rel: Seq<char> },
    Create { parent: Seq<char>, name: Seq<char>, overwrite: bool, directory: bool },
    Rename { rel: Seq<char>, new_name: Seq<char>, overwrite: bool },
    Transfer {
        source: Seq<char>,
        target_parent: Seq<char>,
        name: Seq<char>,
        overwrite: bool,
        moving: bool,
    },
    WriteText { rel: Seq<char>, content: Seq<u8> },
    WriteBytes { parent: Seq<char>, name: Seq<char>, data: Seq<u8>, overwrite: bool, offset: u64 },
    ReadBytes { rel: Seq<char>, offset: u64, length: u64 },
}

impl View for ManageOp {
    type V = ManageOpV;

    open spec fn view(&self) -> ManageOpV {
        match self {
            ManageOp::Stat { rel } => ManageOpV::Stat { rel: rel@ },
            ManageOp::Delete { rel } => ManageOpV::Delete { rel: rel@ },
            ManageOp::Create { parent, name, overwrite, directory } => ManageOpV::Create {
                parent: parent@,
                name: name@,
                overwrite: *overwrite,
                directory: *directory,
            },
            ManageOp::Rename { rel, new_name, overwrite } => ManageOpV::Rename {
                rel: rel@,
                new_name: new_name@,
                overwrite: *overwrite,
            },
            ManageOp::Transfer { source, target_parent, name, overwrite, moving } =>
                ManageOpV::Transfer {
                source: source@,
                target_parent: target_parent@,
                name: name@,
                overwrite: *overwrite,
                moving: *moving,
            },
            ManageOp::WriteText { rel, content } => ManageOpV::WriteText {
                rel: rel@,
                content: content@,
            },
            ManageOp::WriteBytes { parent, name, data, overwrite, offset } =>
                ManageOpV::WriteBytes {
                parent: parent@,
                name: name@,
                data: data@,
                overwrite: *overwrite,
                offset: *offset,
            },
            ManageOp::ReadBytes { rel, offset, length } => ManageOpV::ReadBytes {
                rel: rel@,
                offset: *offset,
                length: *length,
            },
        }
    }
}

/// Where a managed operation stands: the reply it waits for.
#[derive(Clone, Copy)]
pub enum Phase {
    /// The root, canonicalized.
    RootCanon,
    /// Whether the canonical root is a directory.
    RootIsDir,
    /// An existing entry's path, canonicalized.
    ExistCanon,
    /// The existing entry's own metadata (is it a link?).
    ExistMeta,
    /// The parent of a new entry, canonicalized.
    ParentCanon,
    /// The parent's own metadata.
    ParentMeta,
    /// Whether the target of a change already exists.
    ProbeTarget,
    /// The removal of an existing target.
    ClearTarget,
    /// The creation of a new file or directory.
    Make,
    /// A rename.
    Moved,
    /// The metadata of a copy's source.
    CopyProbe,
    /// The copy of a single file.
    CopyFileDone,
    /// The creation of a directory in a recursive copy.
    DirMade,
    /// The listing of a directory in a recursive copy.
    DirRead,
    /// The copy of one file in a recursive copy.
    EntryCopied,
    /// The metadata of the entry to delete.
    DelProbe,
    /// The deletion.
    DelDone,
    /// The metadata of a text file about to be written.
    TextProbe,
    /// The metadata of a file about to be written at an offset.
    AppendProbe,
    /// A write.
    Written,
    /// The metadata of a file about to be read.
    ReadProbe,
    /// The bytes read.
    ReadDone,
    /// The metadata of the entry to report.
    StatProbe,
}

/// A directory being copied: its entries and how far the copy has come.
pub struct CopyFrame {
    pub items: Vec<DirItem>,
    pub next: usize,
    pub dest: String,
    pub complete: bool,
}

#[verifier::ext_equal]
pub struct CopyFrameV {
    pub items: Seq<DirItemV>,
    pub next: int,
    pub dest: Seq<char>,
    pub complete: bool,
}

impl View for CopyFrame {
    type V = CopyFrameV;

    open spec fn view(&self) -> CopyFrameV {
        CopyFrameV {
            items: items_view(self.items@),
            next: self.next as int,
            dest: self.dest@,
            complete: self.complete,
        }
    }
}

pub open spec fn frames_view(f: Seq<CopyFrame>) -> Seq<CopyFrameV> {
    f.map_values(|x: CopyFrame| x@)
}

/// A managed operation in progress.
pub struct FileManage {
    pub op: ManageOp,
    /// The root as the client gave it.
    pub root_text: String,
    pub phase: Phase,
    /// The canonical root.
    pub root: String,
    /// The existing entry the operation works on.
    pub path: String,
    /// The parent directory of the new entry.
    pub parent: String,
    /// The name asked for the new entry.
    pub name: String,
    /// The new entry.
    pub target: String,
    /// Directories being copied, innermost last.
    pub frames: Vec<CopyFrame>,
    pub src_dir: String,
    pub dest_dir: String,
    /// Whether a move, after copying, is deleting its source.
    pub second: bool,
    /// The root of the move before the deletion resolved it again.
    pub saved_root: String,
    /// The entry being reported.
    pub stat_at: String,
    pub file_len: u64,
    pub to_read: u64,
}

#[verifier::ext_equal]
pub struct FileManageV {
    pub op: ManageOpV,
    pub root_text: Seq<char>,
    pub phase: Phase,
    pub root: Seq<char>,
    pub path: Seq<char>,
    pub parent: Seq<char>,
    pub name: Seq<char>,
    pub target: Seq<char>,
    pub frames: Seq<CopyFrameV>,
    pub src_dir: Seq<char>,
    pub dest_dir: Seq<char>,
    pub second: bool,
    pub saved_root: Seq<char>,
    pub stat_at: Seq<char>,
    pub file_len: u64,
    pub to_read: u64,
}

impl View for FileManage {
    type V = FileManageV;

    open spec fn view(&self) -> FileManageV {
        FileManageV {
            op: self.op@,
            root_text: self.root_text@,
            phase: self.phase,
            root: self.root@,
            path: self.path@,
            parent: self.parent@,
            name: self.name@,
            target: self.target@,
            frames: frames_view(self.frames@),
            src_dir: self.src_dir@,
            dest_dir: self.dest_dir@,
            second: self.second,
            saved_root: self.saved_root@,
            stat_at: self.stat_at@,
            file_len: self.file_len,
            to_read: self.to_read,
        }
    }
}

/// What `read_bytes` reports.
pub struct ReadBytesOutput {
    pub name: String,
    pub relative_path: String,
    pub size_bytes: u64,
    pub offset: u64,
    pub data_base64: String,
    pub eof: bool,
}

#[verifier::ext_equal]
pub struct ReadBytesOutputV {
    pub name: Seq<char>,
    pub relative_path: Seq<char>,
    pub size_bytes: u64,
    pub offset: u64,
    pub data_base64: Seq<char>,
    pub eof: bool,
}

impl View for ReadBytesOutput {
    type V = ReadBytesOutputV;

    open spec fn view(&self) -> ReadBytesOutputV {
        ReadBytesOutputV {
            name: self.name@,
            relative_path: self.relative_path@,
            size_bytes: self.size_bytes,
            offset: self.offset,
            data_base64: self.data_base64@,
            eof: self.eof,
        }
    }
}

/// What a finished managed operation gives.
pub enum ManageOutcome {
    Entry(RemoteFileEntry),
    Deleted,
    Bytes(ReadBytesOutput),
}

pub enum ManageOutcomeV {
    Entry(RemoteFileEntryV),
    Deleted,
    Bytes(ReadBytesOutputV),
}

impl View for ManageOutcome {
    type V = ManageOutcomeV;

    open spec fn view(&self) -> ManageOutcomeV {
        match self {
            ManageOutcome::Entry(e) => ManageOutcomeV::Entry(e@),
            ManageOutcome::Deleted => ManageOutcomeV::Deleted,
            ManageOutcome::Bytes(b) => ManageOutcomeV::Bytes(b@),
        }
    }
}

/// The next thing a managed operation asks for, or its result.
pub enum ManageStep {
    Ask(FileManage, FsRequest),
    Finished(Result<ManageOutcome, String>),
}

pub enum ManageStepV {
    Ask(FileManageV, FsRequestV),
    Finished(Result<ManageOutcomeV, Seq<char>>),
}

impl View for ManageStep {
    type V = ManageStepV;

    open spec fn view(&self) -> ManageStepV {
        match self {
            ManageStep::Ask(m, q) => ManageStepV::Ask(m@, q@),
            ManageStep::Finished(r) => ManageStepV::Finished(
                match r {
                    Ok(o) => Ok(o@),
                    Err(e) => Err(e@),
                },
            ),
        }
    }
}

pub open spec fn fail(msg: Seq<char>) -> ManageStepV {
    ManageStepV::Finished(Err(msg))
}

fn fail_with(msg: String) -> (r: ManageStep)
    ensures
        r@ == fail(msg@),
{
    ManageStep::Finished(Err(msg))
}

fn fail_str(msg: &str) -> (r: ManageStep)
    ensures
        r@ == fail(msg@),
{
    ManageStep::Finished(Err(String::from_str(msg)))
}

/// The entry `stat_path` reports for `path` under `root`.
pub open spec fn entry_spec(root: Seq<char>, path: Seq<char>, meta: FileMeta) -> Result<
    RemoteFileEntryV,
    Seq<char>,
> {
    let name = match file_name_spec(path) {
        Some(n) => n,
        None => Seq::empty(),
    };
    let rel = if path == root {
        Some(Seq::empty())
    } else {
        relative_spec(root, path)
    };
    match rel {
        Some(r) => Ok(
            RemoteFileEntryV {
                name: name,
                relative_path: r,
                kind: if meta.is_dir {
                    "directory"@
                } else {
                    "file"@
                },
                size_bytes: meta.len,
                modified_ms: meta.modified_ms,
            },
        ),
        None => Err("remote_file_path_confined"@),
    }
}

pub fn entry_for(root: &str, path: &str, meta: FileMeta) -> (r: Result<RemoteFileEntry, String>)
    ensures
        match entry_spec(root@, path@, meta) {
            Ok(e) => r matches Ok(x) && x@ == e,
            Err(m) => r matches Err(x) && x@ == m,
        },
{
    let name = match file_name(path) {
        Some(n) => n,
        None => String::new(),
    };
    let rel = if same_text(path, root) {
        String::new()
    } else {
        relative_path(root, path)?
    };
    let kind = if meta.is_dir {
        String::from_str("directory")
    } else {
        String::from_str("file")
    };
    Ok(RemoteFileEntry {
        name,
        relative_path: rel,
        kind,
        size_bytes: meta.len,
        modified_ms: meta.modified_ms,
    })
}

pub open spec fn op_overwrite(op: ManageOpV) -> bool {
    match op {
        ManageOpV::Create { overwrite, .. } => overwrite,
        ManageOpV::Rename { overwrite, .. } => overwrite,
        ManageOpV::Transfer { overwrite, .. } => overwrite,
        ManageOpV::WriteBytes { overwrite, .. } => overwrite,
        _ => false,
    }
}

fn overwrite_of(op: &ManageOp) -> (r: bool)
    ensures
        r == op_overwrite(op@),
{
    match op {
        ManageOp::Create { overwrite, .. } => *overwrite,
        ManageOp::Rename { overwrite, .. } => *overwrite,
        ManageOp::Transfer { overwrite, .. } => *overwrite,
        ManageOp::WriteBytes { overwrite, .. } => *overwrite,
        _ => false,
    }
}

/// Report the entry at `p` (`stat_path`).
pub open spec fn stat_path_spec(m: FileManageV, p: Seq<char>) -> ManageStepV {
    ManageStepV::Ask(
        FileManageV { phase: Phase::StatProbe, stat_at: p, ..m },
        FsRequestV::SymlinkMetadata(p),
    )
}

/// Resolve `rel` as an existing entry (`resolve_existing_plain`).
pub open spec fn exist_start_spec(m: FileManageV, rel: Seq<char>) -> ManageStepV {
    if !relative_text_ok(rel) {
        fail("remote_file_path_invalid"@)
    } else {
        ManageStepV::Ask(
            FileManageV { phase: Phase::ExistCanon, ..m },
            FsRequestV::Canonicalize(join_spec(m.root, rel)),
        )
    }
}

/// Resolve `prel` as the parent of a new entry called `name` (`resolve_new_child`).
pub open spec fn parent_start_spec(m: FileManageV, prel: Seq<char>, name: Seq<char>) -> ManageStepV {
    if !relative_text_ok(prel) {
        fail("remote_file_path_invalid"@)
    } else {
        ManageStepV::Ask(
            FileManageV { phase: Phase::ParentCanon, name: name, ..m },
            FsRequestV::Canonicalize(join_spec(m.root, prel)),
        )
    }
}

/// The canonical root is known and is a directory.
pub open spec fn root_ready_spec(m: FileManageV) -> ManageStepV {
    match m.op {
        ManageOpV::Stat { rel } => if rel.len() == 0 {
            stat_path_spec(m, m.root)
        } else {
            exist_start_spec(m, rel)
        },
        ManageOpV::Delete { rel } => if rel.len() == 0 {
            fail("cannot_delete_root"@)
        } else {
            exist_start_spec(m, rel)
        },
        ManageOpV::Rename { rel, .. } => if rel.len() == 0 {
            fail("cannot_delete_root"@)
        } else {
            exist_start_spec(m, rel)
        },
        ManageOpV::Transfer { source, .. } => if source.len() == 0 {
            fail("cannot_delete_root"@)
        } else {
            exist_start_spec(m, source)
        },
        ManageOpV::Create { parent, name, .. } => parent_start_spec(m, parent, name),
        ManageOpV::WriteText { rel, .. } => match split_spec(rel) {
            Ok((p, n)) => parent_start_spec(m, p, n),
            Err(e) => fail(e),
        },
        ManageOpV::WriteBytes { parent, name, .. } => parent_start_spec(m, parent, name),
        ManageOpV::ReadBytes { rel, .. } => exist_start_spec(m, rel),
    }
}

/// The existing entry is resolved and is no link.
pub open spec fn exist_ready_spec(m: FileManageV) -> ManageStepV {
    match m.op {
        ManageOpV::Stat { .. } => stat_path_spec(m, m.path),
        ManageOpV::Delete { .. } => ManageStepV::Ask(
            FileManageV { phase: Phase::DelProbe, ..m },
            FsRequestV::SymlinkMetadata(m.path),
        ),
        ManageOpV::Rename { rel, new_name, .. } => parent_start_spec(m, parent_of(rel), new_name),
        ManageOpV::Transfer { target_parent, name, .. } => if m.second {
            ManageStepV::Ask(
                FileManageV { phase: Phase::DelProbe, ..m },
                FsRequestV::SymlinkMetadata(m.path),
            )
        } else {
            parent_start_spec(m, target_parent, name)
        },
        ManageOpV::ReadBytes { .. } => ManageStepV::Ask(
            FileManageV { phase: Phase::ReadProbe, ..m },
            FsRequestV::SymlinkMetadata(m.path),
        ),
        _ => stat_path_spec(m, m.path),
    }
}

/// Check that the target does not exist, or remove it when overwriting (`prepare_target`).
pub open spec fn prepare_spec(m: FileManageV) -> ManageStepV {
    ManageStepV::Ask(
        FileManageV { phase: Phase::ProbeTarget, ..m },
        FsRequestV::SymlinkMetadata(m.target),
    )
}

/// The new entry's path is known and lies under the root.
pub open spec fn target_ready_spec(m: FileManageV) -> ManageStepV {
    match m.op {
        ManageOpV::Create { .. } => prepare_spec(m),
        ManageOpV::Rename { .. } => if m.path == m.target {
            stat_path_spec(m, m.path)
        } else {
            prepare_spec(m)
        },
        ManageOpV::Transfer { .. } => if within(m.target, m.path) {
            fail("target_inside_source"@)
        } else if m.path == m.target {
            stat_path_spec(m, m.path)
        } else {
            prepare_spec(m)
        },
        ManageOpV::WriteText { .. } => ManageStepV::Ask(
            FileManageV { phase: Phase::TextProbe, ..m },
            FsRequestV::SymlinkMetadata(m.target),
        ),
        ManageOpV::WriteBytes { offset, .. } => if offset == 0 {
            prepare_spec(m)
        } else {
            ManageStepV::Ask(
                FileManageV { phase: Phase::AppendProbe, ..m },
                FsRequestV::SymlinkMetadata(m.target),
            )
        },
        _ => prepare_spec(m),
    }
}

/// The parent of the new entry is resolved and is a directory.
pub open spec fn parent_ready_spec(m: FileManageV) -> ManageStepV {
    match name_check(m.name) {
        Err(e) => fail(e),
        Ok(n) => {
            let t = join_spec(m.parent, n);
            if !within(t, m.root) {
                fail("remote_file_path_confined"@)
            } else {
                target_ready_spec(FileManageV { target: t, ..m })
            }
        },
    }
}

/// Copy the source to the target (`copy_plain`).
pub open spec fn copy_plain_spec(m: FileManageV) -> ManageStepV {
    ManageStepV::Ask(
        FileManageV { phase: Phase::CopyProbe, ..m },
        FsRequestV::SymlinkMetadata(m.path),
    )
}

/// The target is free.
pub open spec fn prepared_spec(m: FileManageV) -> ManageStepV {
    match m.op {
        ManageOpV::Create { directory, .. } => ManageStepV::Ask(
            FileManageV { phase: Phase::Make, ..m },
            if directory {
                FsRequestV::CreateDir(m.target)
            } else {
                FsRequestV::WriteFile(m.target, Seq::empty())
            },
        ),
        ManageOpV::Rename { .. } => ManageStepV::Ask(
            FileManageV { phase: Phase::Moved, ..m },
            FsRequestV::Rename(m.path, m.target),
        ),
        ManageOpV::Transfer { moving, .. } => if moving {
            ManageStepV::Ask(
                FileManageV { phase: Phase::Moved, ..m },
                FsRequestV::Rename(m.path, m.target),
            )
        } else {
            copy_plain_spec(m)
        },
        ManageOpV::WriteBytes { data, .. } => ManageStepV::Ask(
            FileManageV { phase: Phase::Written, ..m },
            FsRequestV::WriteFile(m.target, data),
        ),
        _ => stat_path_spec(m, m.target),
    }
}

/// The copy is complete: a copy reports the target; a move whose rename
/// failed now deletes its source, resolving it again from the root.
pub open spec fn copy_done_spec(m: FileManageV) -> ManageStepV {
    match m.op {
        ManageOpV::Transfer { moving, .. } => if moving {
            if !root_text_ok(trim(m.root_text)) {
                fail("remote_file_root_invalid"@)
            } else {
                ManageStepV::Ask(
                    FileManageV {
                        phase: Phase::RootCanon,
                        second: true,
                        saved_root: m.root,
                        frames: Seq::empty(),
                        ..m
                    },
                    FsRequestV::Canonicalize(trim(m.root_text)),
                )
            }
        } else {
            stat_path_spec(m, m.target)
        },
        _ => stat_path_spec(m, m.target),
    }
}

pub open spec fn copy_measure(m: FileManageV) -> int {
    if m.frames.len() > 0 {
        m.frames.last().items.len() - m.frames.last().next
    } else {
        0
    }
}

/// Take up the next entry of the innermost directory being copied
/// (`copy_dir`'s loop); links are skipped.
pub open spec fn copy_advance_spec(m: FileManageV) -> ManageStepV
    decreases m.frames.len(), copy_measure(m),
{
    if m.frames.len() == 0 {
        copy_done_spec(m)
    } else {
        let f = m.frames.last();
        let last = m.frames.len() - 1;
        if 0 <= f.next < f.items.len() {
            let it = f.items[f.next];
            let m2 = FileManageV {
                frames: m.frames.update(last, CopyFrameV { next: f.next + 1, ..f }),
                ..m
            };
            match it.kind {
                None => fail("remote_file_copy_failed"@),
                Some(k) => if k.is_symlink {
                    copy_advance_spec(m2)
                } else {
                    let d = join_spec(f.dest, it.name);
                    if k.is_dir {
                        ManageStepV::Ask(
                            FileManageV { phase: Phase::DirMade, src_dir: it.path, dest_dir: d, ..m2 },
                            FsRequestV::CreateDir(d),
                        )
                    } else {
                        ManageStepV::Ask(
                            FileManageV { phase: Phase::EntryCopied, ..m2 },
                            FsRequestV::CopyFile(it.path, d),
                        )
                    }
                },
            }
        } else if !f.complete {
            fail("remote_file_copy_failed"@)
        } else {
            let m2 = FileManageV { frames: m.frames.drop_last(), ..m };
            if m2.frames.len() == 0 {
                copy_done_spec(m2)
            } else {
                copy_advance_spec(m2)
            }
        }
    }
}

/// What `read_bytes` reports once `data` has been read.
pub open spec fn read_finish_spec(m: FileManageV, data: Seq<u8>) -> ManageStepV {
    let offset = match m.op {
        ManageOpV::ReadBytes { offset, .. } => offset,
        _ => 0,
    };
    let name = match file_name_spec(m.path) {
        Some(n) => n,
        None => Seq::empty(),
    };
    match relative_spec(m.root, m.path) {
        None => fail("remote_file_path_confined"@),
        Some(rel) => ManageStepV::Finished(
            Ok(
                ManageOutcomeV::Bytes(
                    ReadBytesOutputV {
                        name: name,
                        relative_path: rel,
                        size_bytes: m.file_len,
                        offset: offset,
                        data_base64: b64_encode(data),
                        eof: offset + m.to_read >= m.file_len,
                    },
                ),
            ),
        ),
    }
}

/// One step of a managed operation: what it does with the reply to the
/// request it made.
pub open spec fn step_spec(m: FileManageV, r: FsReplyV) -> ManageStepV {
    match m.phase {
        Phase::RootCanon => match reply_path(r) {
            None => fail("remote_file_root_unavailable"@),
            Some(c) => ManageStepV::Ask(
                FileManageV { phase: Phase::RootIsDir, root: c, ..m },
                FsRequestV::Metadata(c),
            ),
        },
        Phase::RootIsDir => match reply_meta(r) {
            MetaReply::Found(x) => if x.is_dir {
                root_ready_spec(m)
            } else {
                fail("remote_file_root_not_directory"@)
            },
            _ => fail("remote_file_root_not_directory"@),
        },
        Phase::ExistCanon => match reply_path(r) {
            None => fail("remote_file_not_found"@),
            Some(c) => if !within(c, m.root) {
                fail("remote_file_path_confined"@)
            } else {
                ManageStepV::Ask(
                    FileManageV { phase: Phase::ExistMeta, path: c, ..m },
                    FsRequestV::SymlinkMetadata(c),
                )
            },
        },
        Phase::ExistMeta => match reply_meta(r) {
            MetaReply::Found(x) => if x.is_symlink {
                fail("remote_file_path_confined"@)
            } else {
                exist_ready_spec(m)
            },
            _ => fail("remote_file_not_found"@),
        },
        Phase::ParentCanon => match reply_path(r) {
            None => fail("remote_file_not_found"@),
            Some(c) => if !within(c, m.root) {
                fail("remote_file_path_confined"@)
            } else {
                ManageStepV::Ask(
                    FileManageV { phase: Phase::ParentMeta, parent: c, ..m },
                    FsRequestV::SymlinkMetadata(c),
                )
            },
        },
        Phase::ParentMeta => match reply_meta(r) {
            MetaReply::Found(x) => if x.is_symlink || !x.is_dir {
                fail("remote_file_not_directory"@)
            } else {
                parent_ready_spec(m)
            },
            _ => fail("remote_file_not_found"@),
        },
        Phase::ProbeTarget => match reply_meta(r) {
            MetaReply::Found(x) => if !op_overwrite(m.op) {
                fail("target_exists"@)
            } else if x.is_symlink {
                fail("remote_file_path_confined"@)
            } else {
                ManageStepV::Ask(
                    FileManageV { phase: Phase::ClearTarget, ..m },
                    if x.is_dir {
                        FsRequestV::RemoveDirAll(m.target)
                    } else {
                        FsRequestV::RemoveFile(m.target)
                    },
                )
            },
            MetaReply::Missing => prepared_spec(m),
            MetaReply::Failed => fail("remote_file_metadata_failed"@),
        },
        Phase::ClearTarget => if reply_done(r) {
            prepared_spec(m)
        } else {
            fail("remote_file_delete_failed"@)
        },
        Phase::Make => if reply_done(r) {
            stat_path_spec(m, m.target)
        } else {
            fail("remote_file_create_failed"@)
        },
        Phase::Moved => if reply_done(r) {
            stat_path_spec(m, m.target)
        } else if m.op is Rename {
            fail("remote_file_rename_failed"@)
        } else {
            copy_plain_spec(m)
        },
        Phase::CopyProbe => match reply_meta(r) {
            MetaReply::Found(x) => if x.is_symlink {
                fail("remote_file_path_confined"@)
            } else if x.is_dir {
                ManageStepV::Ask(
                    FileManageV { phase: Phase::DirMade, src_dir: m.path, dest_dir: m.target, ..m },
                    FsRequestV::CreateDir(m.target),
                )
            } else {
                ManageStepV::Ask(
                    FileManageV { phase: Phase::CopyFileDone, ..m },
                    FsRequestV::CopyFile(m.path, m.target),
                )
            },
            _ => fail("remote_file_not_found"@),
        },
        Phase::CopyFileDone => if reply_done(r) {
            copy_done_spec(m)
        } else {
            fail("remote_file_copy_failed"@)
        },
        Phase::DirMade => if reply_done(r) {
            ManageStepV::Ask(
                FileManageV { phase: Phase::DirRead, ..m },
                FsRequestV::ReadDir(m.src_dir),
            )
        } else {
            fail("remote_file_copy_failed"@)
        },
        Phase::DirRead => {
            let l = reply_listing(r);
            copy_advance_spec(
                FileManageV {
                    frames: m.frames.push(
                        CopyFrameV { items: l.items, next: 0, dest: m.dest_dir, complete: l.complete },
                    ),
                    ..m
                },
            )
        },
        Phase::EntryCopied => if reply_done(r) {
            copy_advance_spec(m)
        } else {
            fail("remote_file_copy_failed"@)
        },
        Phase::DelProbe => match reply_meta(r) {
            MetaReply::Found(x) => if x.is_symlink {
                fail("remote_file_path_confined"@)
            } else {
                ManageStepV::Ask(
                    FileManageV { phase: Phase::DelDone, ..m },
                    if x.is_dir {
                        FsRequestV::RemoveDirAll(m.path)
                    } else {
                        FsRequestV::RemoveFile(m.path)
                    },
                )
            },
            _ => fail("remote_file_not_found"@),
        },
        Phase::DelDone => if reply_done(r) {
            if m.second {
                stat_path_spec(FileManageV { root: m.saved_root, ..m }, m.target)
            } else {
                ManageStepV::Finished(Ok(ManageOutcomeV::Deleted))
            }
        } else {
            fail("remote_file_delete_failed"@)
        },
        Phase::TextProbe => {
            let content = match m.op {
                ManageOpV::WriteText { content, .. } => content,
                _ => Seq::empty(),
            };
            match reply_meta(r) {
                MetaReply::Found(x) => if x.is_symlink || x.is_dir {
                    fail("remote_file_path_confined"@)
                } else {
                    ManageStepV::Ask(
                        FileManageV { phase: Phase::Written, ..m },
                        FsRequestV::WriteFile(m.target, content),
                    )
                },
                _ => ManageStepV::Ask(
                    FileManageV { phase: Phase::Written, ..m },
                    FsRequestV::WriteFile(m.target, content),
                ),
            }
        },
        Phase::AppendProbe => {
            let (offset, data) = match m.op {
                ManageOpV::WriteBytes { offset, data, .. } => (offset, data),
                _ => (0u64, Seq::empty()),
            };
            match reply_meta(r) {
                MetaReply::Found(x) => if x.is_symlink || !x.is_file {
                    fail("remote_file_path_confined"@)
                } else if offset > x.len {
                    fail("remote_file_offset_invalid"@)
                } else {
                    ManageStepV::Ask(
                        FileManageV { phase: Phase::Written, ..m },
                        FsRequestV::WriteAt(m.target, offset, data),
                    )
                },
                _ => fail("remote_file_not_found"@),
            }
        },
        Phase::Written => if reply_done(r) {
            stat_path_spec(m, m.target)
        } else {
            fail("remote_file_write_failed"@)
        },
        Phase::ReadProbe => {
            let (offset, length) = match m.op {
                ManageOpV::ReadBytes { offset, length, .. } => (offset, length),
                _ => (0u64, 0u64),
            };
            match reply_meta(r) {
                MetaReply::Found(x) => if x.is_symlink || !x.is_file {
                    fail("remote_file_not_file"@)
                } else {
                    match read_plan_spec(x.len, offset, length) {
                        Err(e) => fail(e),
                        Ok(n) => if n > 0 {
                            ManageStepV::Ask(
                                FileManageV { phase: Phase::ReadDone, file_len: x.len, to_read: n, ..m },
                                FsRequestV::ReadAt(m.path, offset, n),
                            )
                        } else {
                            read_finish_spec(
                                FileManageV { file_len: x.len, to_read: 0, ..m },
                                Seq::empty(),
                            )
                        },
                    }
                },
                _ => fail("remote_file_not_found"@),
            }
        },
        Phase::ReadDone => match reply_bytes(r) {
            Some(d) => read_finish_spec(m, d),
            None => fail("remote_file_read_failed"@),
        },
        Phase::StatProbe => match reply_meta(r) {
            MetaReply::Found(x) => if x.is_symlink {
                fail("remote_file_path_confined"@)
            } else {
                match entry_spec(m.root, m.stat_at, x) {
                    Ok(e) => ManageStepV::Finished(Ok(ManageOutcomeV::Entry(e))),
                    Err(e) => fail(e),
                }
            },
            _ => fail("remote_file_not_found"@),
        },
    }
}

/// How a managed operation starts: the root's text is checked, then the
/// root is canonicalized.
pub open spec fn start_spec(op: ManageOpV, root_text: Seq<char>) -> ManageStepV {
    if !root_text_ok(trim(root_text)) {
        fail("remote_file_root_invalid"@)
    } else {
        ManageStepV::Ask(
            FileManageV {
                op: op,
                root_text: root_text,
                phase: Phase::RootCanon,
                root: Seq::empty(),
                path: Seq::empty(),
                parent: Seq::empty(),
                name: Seq::empty(),
                target: Seq::empty(),
                frames: Seq::empty(),
                src_dir: Seq::empty(),
                dest_dir: Seq::empty(),
                second: false,
                saved_root: Seq::empty(),
                stat_at: Seq::empty(),
                file_len: 0,
                to_read: 0,
            },
            FsRequestV::Canonicalize(trim(root_text)),
        )
    }
}


fn copy_bytes(v: &Vec<u8>) -> (r: Vec<u8>)
    ensures
        r@ == v@,
{
    let mut out: Vec<u8> = Vec::new();
    let mut i: usize = 0;
    while i < v.len()
        invariant
            i <= v@.len(),
            out@ == v@.take(i as int),
        decreases v.len() - i,
    {
        out.push(v[i]);
        proof {
            assert(v@.take(i + 1) =~= v@.take(i as int).push(v@[i as int]));
        }
        i = i + 1;
    }
    proof {
        assert(v@.take(v@.len() as int) =~= v@);
    }
    out
}

fn copy_str(s: &String) -> (r: String)
    ensures
        r@ == s@,
{
    s.clone()
}

/// Starts a managed operation.
pub fn start(op: ManageOp, root_text: String) -> (r: ManageStep)
    ensures
        r@ == start_spec(op@, root_text@),
{
    match check_root_text(root_text.as_str()) {
        Err(e) => fail_with(e),
        Ok(t) => {
            let m = FileManage {
                op,
                root_text,
                phase: Phase::RootCanon,
                root: String::new(),
                path: String::new(),
                parent: String::new(),
                name: String::new(),
                target: String::new(),
                frames: Vec::new(),
                src_dir: String::new(),
                dest_dir: String::new(),
                second: false,
                saved_root: String::new(),
                stat_at: String::new(),
                file_len: 0,
                to_read: 0,
            };
            proof {
                assert(m@.frames =~= Seq::<CopyFrameV>::empty());
            }
            ManageStep::Ask(m, FsRequest::Canonicalize(t))
        },
    }
}

impl FileManage {
    fn stat_path(self, p: String) -> (r: ManageStep)
        ensures
            r@ == stat_path_spec(self@, p@),
    {
        let q = copy_str(&p);
        ManageStep::Ask(FileManage { phase: Phase::StatProbe, stat_at: p, ..self }, FsRequest::SymlinkMetadata(q))
    }

    fn exist_start(self, rel: String) -> (r: ManageStep)
        ensures
            r@ == exist_start_spec(self@, rel@),
    {
        match check_relative_text(rel.as_str()) {
            Err(e) => fail_with(e),
            Ok(()) => {
                let q = join(self.root.as_str(), rel.as_str());
                ManageStep::Ask(FileManage { phase: Phase::ExistCanon, ..self }, FsRequest::Canonicalize(q))
            },
        }
    }

    fn parent_start(self, prel: String, name: String) -> (r: ManageStep)
        ensures
            r@ == parent_start_spec(self@, prel@, name@),
    {
        match check_relative_text(prel.as_str()) {
            Err(e) => fail_with(e),
            Ok(()) => {
                let q = join(self.root.as_str(), prel.as_str());
                ManageStep::Ask(
                    FileManage { phase: Phase::ParentCanon, name, ..self },
                    FsRequest::Canonicalize(q),
                )
            },
        }
    }

    fn root_ready(self) -> (r: ManageStep)
        ensures
            r@ == root_ready_spec(self@),
    {
        match &self.op {
            ManageOp::Stat { rel } => {
                let rel = copy_str(rel);
                if rel.as_str().is_empty() {
                    let root = copy_str(&self.root);
                    self.stat_path(root)
                } else {
                    self.exist_start(rel)
                }
            },
            ManageOp::Delete { rel } => {
                let rel = copy_str(rel);
                if rel.as_str().is_empty() {
                    fail_str("cannot_delete_root")
                } else {
                    self.exist_start(rel)
                }
            },
            ManageOp::Rename { rel, .. } => {
                let rel = copy_str(rel);
                if rel.as_str().is_empty() {
                    fail_str("cannot_delete_root")
                } else {
                    self.exist_start(rel)
                }
            },
            ManageOp::Transfer { source, .. } => {
                let source = copy_str(source);
                if source.as_str().is_empty() {
                    fail_str("cannot_delete_root")
                } else {
                    self.exist_start(source)
                }
            },
            ManageOp::Create { parent, name, .. } => {
                let parent = copy_str(parent);
                let name = copy_str(name);
                self.parent_start(parent, name)
            },
            ManageOp::WriteText { rel, .. } => {
                match split_relative(rel.as_str()) {
                    Ok((p, n)) => self.parent_start(p, n),
                    Err(e) => fail_with(e),
                }
            },
            ManageOp::WriteBytes { parent, name, .. } => {
                let parent = copy_str(parent);
                let name = copy_str(name);
                self.parent_start(parent, name)
            },
            ManageOp::ReadBytes { rel, .. } => {
                let rel = copy_str(rel);
                self.exist_start(rel)
            },
        }
    }

    fn exist_ready(self) -> (r: ManageStep)
        ensures
            r@ == exist_ready_spec(self@),
    {
        match &self.op {
            ManageOp::Stat { .. } => {
                let p = copy_str(&self.path);
                self.stat_path(p)
            },
            ManageOp::Delete { .. } => {
                let p = copy_str(&self.path);
                ManageStep::Ask(FileManage { phase: Phase::DelProbe, ..self }, FsRequest::SymlinkMetadata(p))
            },
            ManageOp::Rename { rel, new_name, .. } => {
                let prel = parent_relative(rel.as_str());
                let n = copy_str(new_name);
                self.parent_start(prel, n)
            },
            ManageOp::Transfer { target_parent, name, .. } => {
                if self.second {
                    let p = copy_str(&self.path);
                    ManageStep::Ask(
                        FileManage { phase: Phase::DelProbe, ..self },
                        FsRequest::SymlinkMetadata(p),
                    )
                } else {
                    let tp = copy_str(target_parent);
                    let n = copy_str(name);
                    self.parent_start(tp, n)
                }
            },
            ManageOp::ReadBytes { .. } => {
                let p = copy_str(&self.path);
                ManageStep::Ask(FileManage { phase: Phase::ReadProbe, ..self }, FsRequest::SymlinkMetadata(p))
            },
            _ => {
                let p = copy_str(&self.path);
                self.stat_path(p)
            },
        }
    }

    fn prepare(self) -> (r: ManageStep)
        ensures
            r@ == prepare_spec(self@),
    {
        let t = copy_str(&self.target);
        ManageStep::Ask(FileManage { phase: Phase::ProbeTarget, ..self }, FsRequest::SymlinkMetadata(t))
    }

    fn target_ready(self) -> (r: ManageStep)
        ensures
            r@ == target_ready_spec(self@),
    {
        match &self.op {
            ManageOp::Create { .. } => self.prepare(),
            ManageOp::Rename { .. } => {
                if same_text(self.path.as_str(), self.target.as_str()) {
                    let p = copy_str(&self.path);
                    self.stat_path(p)
                } else {
                    self.prepare()
                }
            },
            ManageOp::Transfer { .. } => {
                if path_within(self.target.as_str(), self.path.as_str()) {
                    fail_str("target_inside_source")
                } else if same_text(self.path.as_str(), self.target.as_str()) {
                    let p = copy_str(&self.path);
                    self.stat_path(p)
                } else {
                    self.prepare()
                }
            },
            ManageOp::WriteText { .. } => {
                let t = copy_str(&self.target);
                ManageStep::Ask(FileManage { phase: Phase::TextProbe, ..self }, FsRequest::SymlinkMetadata(t))
            },
            ManageOp::WriteBytes { offset, .. } => {
                if *offset == 0 {
                    self.prepare()
                } else {
                    let t = copy_str(&self.target);
                    ManageStep::Ask(
                        FileManage { phase: Phase::AppendProbe, ..self },
                        FsRequest::SymlinkMetadata(t),
                    )
                }
            },
            _ => self.prepare(),
        }
    }

    fn parent_ready(self) -> (r: ManageStep)
        ensures
            r@ == parent_ready_spec(self@),
    {
        match validate_name(self.name.as_str()) {
            Err(e) => fail_with(e),
            Ok(n) => {
                let t = join(self.parent.as_str(), n.as_str());
                if !path_within(t.as_str(), self.root.as_str()) {
                    fail_str("remote_file_path_confined")
                } else {
                    FileManage { target: t, ..self }.target_ready()
                }
            },
        }
    }

    fn copy_plain(self) -> (r: ManageStep)
        ensures
            r@ == copy_plain_spec(self@),
    {
        let p = copy_str(&self.path);
        ManageStep::Ask(FileManage { phase: Phase::CopyProbe, ..self }, FsRequest::SymlinkMetadata(p))
    }

    fn prepared(self) -> (r: ManageStep)
        ensures
            r@ == prepared_spec(self@),
    {
        match &self.op {
            ManageOp::Create { directory, .. } => {
                let t = copy_str(&self.target);
                let q = if *directory {
                    FsRequest::CreateDir(t)
                } else {
                    FsRequest::WriteFile(t, Vec::new())
                };
                proof {
                    if !self@.op->Create_directory {
                        assert(q@ =~= FsRequestV::WriteFile(self@.target, Seq::empty()));
                    }
                }
                ManageStep::Ask(FileManage { phase: Phase::Make, ..self }, q)
            },
            ManageOp::Rename { .. } => {
                let a = copy_str(&self.path);
                let b = copy_str(&self.target);
                ManageStep::Ask(FileManage { phase: Phase::Moved, ..self }, FsRequest::Rename(a, b))
            },
            ManageOp::Transfer { moving, .. } => {
                if *moving {
                    let a = copy_str(&self.path);
                    let b = copy_str(&self.target);
                    ManageStep::Ask(FileManage { phase: Phase::Moved, ..self }, FsRequest::Rename(a, b))
                } else {
                    self.copy_plain()
                }
            },
            ManageOp::WriteBytes { data, .. } => {
                let t = copy_str(&self.target);
                let d = copy_bytes(data);
                ManageStep::Ask(FileManage { phase: Phase::Written, ..self }, FsRequest::WriteFile(t, d))
            },
            _ => {
                let t = copy_str(&self.target);
                self.stat_path(t)
            },
        }
    }

    fn copy_done(self) -> (r: ManageStep)
        ensures
            r@ == copy_done_spec(self@),
    {
        let moving = match &self.op {
            ManageOp::Transfer { moving, .. } => *moving,
            _ => false,
        };
        if moving {
            match check_root_text(self.root_text.as_str()) {
                Err(e) => fail_with(e),
                Ok(t) => {
                    let saved = copy_str(&self.root);
                    let m = FileManage {
                        phase: Phase::RootCanon,
                        second: true,
                        saved_root: saved,
                        frames: Vec::new(),
                        ..self
                    };
                    proof {
                        assert(m@.frames =~= Seq::<CopyFrameV>::empty());
                    }
                    ManageStep::Ask(m, FsRequest::Canonicalize(t))
                },
            }
        } else {
            let t = copy_str(&self.target);
            self.stat_path(t)
        }
    }
}


impl FileManage {
    fn copy_advance(self) -> (r: ManageStep)
        ensures
            r@ == copy_advance_spec(self@),
        decreases self@.frames.len(), copy_measure(self@),
    {
        let mut m = self;
        if m.frames.len() == 0 {
            return m.copy_done();
        }
        let last = m.frames.len() - 1;
        let nxt = m.frames[last].next;
        let nitems = m.frames[last].items.len();
        let ghost old_m = m@;
        let ghost f = old_m.frames.last();
        proof {
            assert(old_m.frames[last as int] == m.frames@[last as int]@);
        }
        if nxt < nitems {
            let kind = m.frames[last].items[nxt].kind;
            let ipath = copy_str(&m.frames[last].items[nxt].path);
            let iname = copy_str(&m.frames[last].items[nxt].name);
            let dest = copy_str(&m.frames[last].dest);
            proof {
                assert(f.items[nxt as int] == m.frames@[last as int].items@[nxt as int]@);
            }
            let mut fr = m.frames.pop().unwrap();
            fr.next = nxt + 1;
            m.frames.push(fr);
            proof {
                assert(m@.frames =~= old_m.frames.update(last as int, CopyFrameV { next: f.next + 1, ..f }));
            }
            match kind {
                None => fail_str("remote_file_copy_failed"),
                Some(k) => {
                    if k.is_symlink {
                        m.copy_advance()
                    } else {
                        let d = join(dest.as_str(), iname.as_str());
                        if k.is_dir {
                            let q = copy_str(&d);
                            ManageStep::Ask(
                                FileManage { phase: Phase::DirMade, src_dir: ipath, dest_dir: d, ..m },
                                FsRequest::CreateDir(q),
                            )
                        } else {
                            ManageStep::Ask(
                                FileManage { phase: Phase::EntryCopied, ..m },
                                FsRequest::CopyFile(ipath, d),
                            )
                        }
                    }
                },
            }
        } else if !m.frames[last].complete {
            fail_str("remote_file_copy_failed")
        } else {
            let _ = m.frames.pop();
            proof {
                assert(m@.frames =~= old_m.frames.drop_last());
            }
            if m.frames.len() == 0 {
                m.copy_done()
            } else {
                m.copy_advance()
            }
        }
    }

    fn read_finish(self, data: Vec<u8>) -> (r: ManageStep)
        ensures
            r@ == read_finish_spec(self@, data@),
    {
        let offset = match &self.op {
            ManageOp::ReadBytes { offset, .. } => *offset,
            _ => 0,
        };
        let name = match file_name(self.path.as_str()) {
            Some(n) => n,
            None => String::new(),
        };
        match relative_path(self.root.as_str(), self.path.as_str()) {
            Err(e) => fail_with(e),
            Ok(rel) => {
                let eof = if self.to_read >= self.file_len {
                    true
                } else {
                    offset >= self.file_len - self.to_read
                };
                ManageStep::Finished(
                    Ok(
                        ManageOutcome::Bytes(
                            ReadBytesOutput {
                                name,
                                relative_path: rel,
                                size_bytes: self.file_len,
                                offset,
                                data_base64: standard_encode(data.as_slice()),
                                eof,
                            },
                        ),
                    ),
                )
            },
        }
    }

    /// Takes the reply to the request this operation made, and gives its
    /// next request or its result.
    pub fn resume(self, reply: FsReply) -> (r: ManageStep)
        ensures
            r@ == step_spec(self@, reply@),
    {
        match self.phase {
            Phase::RootCanon => match take_path(reply) {
                None => fail_str("remote_file_root_unavailable"),
                Some(c) => {
                    let q = copy_str(&c);
                    ManageStep::Ask(FileManage { phase: Phase::RootIsDir, root: c, ..self }, FsRequest::Metadata(q))
                },
            },
            Phase::RootIsDir => match take_meta(&reply) {
                MetaReply::Found(x) => if x.is_dir {
                    self.root_ready()
                } else {
                    fail_str("remote_file_root_not_directory")
                },
                _ => fail_str("remote_file_root_not_directory"),
            },
            Phase::ExistCanon => match take_path(reply) {
                None => fail_str("remote_file_not_found"),
                Some(c) => if !path_within(c.as_str(), self.root.as_str()) {
                    fail_str("remote_file_path_confined")
                } else {
                    let q = copy_str(&c);
                    ManageStep::Ask(
                        FileManage { phase: Phase::ExistMeta, path: c, ..self },
                        FsRequest::SymlinkMetadata(q),
                    )
                },
            },
            Phase::ExistMeta => match take_meta(&reply) {
                MetaReply::Found(x) => if x.is_symlink {
                    fail_str("remote_file_path_confined")
                } else {
                    self.exist_ready()
                },
                _ => fail_str("remote_file_not_found"),
            },
            Phase::ParentCanon => match take_path(reply) {
                None => fail_str("remote_file_not_found"),
                Some(c) => if !path_within(c.as_str(), self.root.as_str()) {
                    fail_str("remote_file_path_confined")
                } else {
                    let q = copy_str(&c);
                    ManageStep::Ask(
                        FileManage { phase: Phase::ParentMeta, parent: c, ..self },
                        FsRequest::SymlinkMetadata(q),
                    )
                },
            },
            Phase::ParentMeta => match take_meta(&reply) {
                MetaReply::Found(x) => if x.is_symlink || !x.is_dir {
                    fail_str("remote_file_not_directory")
                } else {
                    self.parent_ready()
                },
                _ => fail_str("remote_file_not_found"),
            },
            Phase::ProbeTarget => match take_meta(&reply) {
                MetaReply::Found(x) => if !overwrite_of(&self.op) {
                    fail_str("target_exists")
                } else if x.is_symlink {
                    fail_str("remote_file_path_confined")
                } else {
                    let t = copy_str(&self.target);
                    let q = if x.is_dir {
                        FsRequest::RemoveDirAll(t)
                    } else {
                        FsRequest::RemoveFile(t)
                    };
                    ManageStep::Ask(FileManage { phase: Phase::ClearTarget, ..self }, q)
                },
                MetaReply::Missing => self.prepared(),
                MetaReply::Failed => fail_str("remote_file_metadata_failed"),
            },
            Phase::ClearTarget => if take_done(&reply) {
                self.prepared()
            } else {
                fail_str("remote_file_delete_failed")
            },
            Phase::Make => if take_done(&reply) {
                let t = copy_str(&self.target);
                self.stat_path(t)
            } else {
                fail_str("remote_file_create_failed")
            },
            Phase::Moved => if take_done(&reply) {
                let t = copy_str(&self.target);
                self.stat_path(t)
            } else if let ManageOp::Rename { .. } = &self.op {
                fail_str("remote_file_rename_failed")
            } else {
                self.copy_plain()
            },
            Phase::CopyProbe => match take_meta(&reply) {
                MetaReply::Found(x) => if x.is_symlink {
                    fail_str("remote_file_path_confined")
                } else if x.is_dir {
                    let t = copy_str(&self.target);
                    let s = copy_str(&self.path);
                    let d = copy_str(&self.target);
                    ManageStep::Ask(
                        FileManage { phase: Phase::DirMade, src_dir: s, dest_dir: d, ..self },
                        FsRequest::CreateDir(t),
                    )
                } else {
                    let a = copy_str(&self.path);
                    let b = copy_str(&self.target);
                    ManageStep::Ask(
                        FileManage { phase: Phase::CopyFileDone, ..self },
                        FsRequest::CopyFile(a, b),
                    )
                },
                _ => fail_str("remote_file_not_found"),
            },
            Phase::CopyFileDone => if take_done(&reply) {
                self.copy_done()
            } else {
                fail_str("remote_file_copy_failed")
            },
            Phase::DirMade => if take_done(&reply) {
                let s = copy_str(&self.src_dir);
                ManageStep::Ask(FileManage { phase: Phase::DirRead, ..self }, FsRequest::ReadDir(s))
            } else {
                fail_str("remote_file_copy_failed")
            },
            Phase::DirRead => {
                let l = take_listing(reply);
                let d = copy_str(&self.dest_dir);
                let mut m = self;
                let ghost old_m = m@;
                m.frames.push(CopyFrame { items: l.items, next: 0, dest: d, complete: l.complete });
                proof {
                    assert(m@.frames =~= old_m.frames.push(
                        CopyFrameV { items: l@.items, next: 0, dest: old_m.dest_dir, complete: l@.complete },
                    ));
                }
                m.copy_advance()
            },
            Phase::EntryCopied => if take_done(&reply) {
                self.copy_advance()
            } else {
                fail_str("remote_file_copy_failed")
            },
            Phase::DelProbe => match take_meta(&reply) {
                MetaReply::Found(x) => if x.is_symlink {
                    fail_str("remote_file_path_confined")
                } else {
                    let p = copy_str(&self.path);
                    let q = if x.is_dir {
                        FsRequest::RemoveDirAll(p)
                    } else {
                        FsRequest::RemoveFile(p)
                    };
                    ManageStep::Ask(FileManage { phase: Phase::DelDone, ..self }, q)
                },
                _ => fail_str("remote_file_not_found"),
            },
            Phase::DelDone => if take_done(&reply) {
                if self.second {
                    let t = copy_str(&self.target);
                    let root = copy_str(&self.saved_root);
                    FileManage { root, ..self }.stat_path(t)
                } else {
                    ManageStep::Finished(Ok(ManageOutcome::Deleted))
                }
            } else {
                fail_str("remote_file_delete_failed")
            },
            Phase::TextProbe => {
                let content = match &self.op {
                    ManageOp::WriteText { content, .. } => copy_bytes(content),
                    _ => Vec::new(),
                };
                proof {
                    if !(self@.op is WriteText) {
                        assert(content@ =~= Seq::<u8>::empty());
                    }
                }
                let t = copy_str(&self.target);
                match take_meta(&reply) {
                    MetaReply::Found(x) => if x.is_symlink || x.is_dir {
                        fail_str("remote_file_path_confined")
                    } else {
                        ManageStep::Ask(FileManage { phase: Phase::Written, ..self }, FsRequest::WriteFile(t, content))
                    },
                    _ => ManageStep::Ask(FileManage { phase: Phase::Written, ..self }, FsRequest::WriteFile(t, content)),
                }
            },
            Phase::AppendProbe => {
                let (offset, data) = match &self.op {
                    ManageOp::WriteBytes { offset, data, .. } => (*offset, copy_bytes(data)),
                    _ => (0u64, Vec::new()),
                };
                proof {
                    if !(self@.op is WriteBytes) {
                        assert(data@ =~= Seq::<u8>::empty());
                    }
                }
                match take_meta(&reply) {
                    MetaReply::Found(x) => if x.is_symlink || !x.is_file {
                        fail_str("remote_file_path_confined")
                    } else if offset > x.len {
                        fail_str("remote_file_offset_invalid")
                    } else {
                        let t = copy_str(&self.target);
                        ManageStep::Ask(
                            FileManage { phase: Phase::Written, ..self },
                            FsRequest::WriteAt(t, offset, data),
                        )
                    },
                    _ => fail_str("remote_file_not_found"),
                }
            },
            Phase::Written => if take_done(&reply) {
                let t = copy_str(&self.target);
                self.stat_path(t)
            } else {
                fail_str("remote_file_write_failed")
            },
            Phase::ReadProbe => {
                let (offset, length) = match &self.op {
                    ManageOp::ReadBytes { offset, length, .. } => (*offset, *length),
                    _ => (0u64, 0u64),
                };
                match take_meta(&reply) {
                    MetaReply::Found(x) => if x.is_symlink || !x.is_file {
                        fail_str("remote_file_not_file")
                    } else {
                        match read_plan(x.len, offset, length) {
                            Err(e) => fail_with(e),
                            Ok(n) => if n > 0 {
                                let p = copy_str(&self.path);
                                ManageStep::Ask(
                                    FileManage { phase: Phase::ReadDone, file_len: x.len, to_read: n, ..self },
                                    FsRequest::ReadAt(p, offset, n),
                                )
                            } else {
                                let v: Vec<u8> = Vec::new();
                                proof {
                                    assert(v@ =~= Seq::<u8>::empty());
                                }
                                FileManage { file_len: x.len, to_read: 0, ..self }.read_finish(v)
                            },
                        }
                    },
                    _ => fail_str("remote_file_not_found"),
                }
            },
            Phase::ReadDone => match take_bytes(reply) {
                Some(d) => self.read_finish(d),
                None => fail_str("remote_file_read_failed"),
            },
            Phase::StatProbe => match take_meta(&reply) {
                MetaReply::Found(x) => if x.is_symlink {
                    fail_str("remote_file_path_confined")
                } else {
                    match entry_for(self.root.as_str(), self.stat_at.as_str(), x) {
                        Ok(e) => ManageStep::Finished(Ok(ManageOutcome::Entry(e))),
                        Err(e) => fail_with(e),
                    }
                },
                _ => fail_str("remote_file_not_found"),
            },
        }
    }
}


/// Reports the entry at `relative_path` (the root itself when it is empty).
pub fn stat(request: FileStatRequest) -> (r: ManageStep)
    ensures
        r@ == start_spec(ManageOpV::Stat { rel: request.relative_path@ }, request.root_path@),
{
    start(ManageOp::Stat { rel: request.relative_path }, request.root_path)
}

pub open spec fn transfer_op(request: FileTransferRequest, moving: bool) -> ManageOpV {
    ManageOpV::Transfer {
        source: request.source_path@,
        target_parent: request.target_parent_path@,
        name: request.name@,
        overwrite: request.overwrite,
        moving: moving,
    }
}

fn transfer(request: FileTransferRequest, moving: bool) -> (r: ManageStep)
    ensures
        r@ == start_spec(transfer_op(request, moving), request.root_path@),
{
    start(
        ManageOp::Transfer {
            source: request.source_path,
            target_parent: request.target_parent_path,
            name: request.name,
            overwrite: request.overwrite,
            moving,
        },
        request.root_path,
    )
}

/// Copies `source_path` (a file, or a directory with what it holds) to
/// `name` inside `target_parent_path`.
pub fn copy(request: FileTransferRequest) -> (r: ManageStep)
    ensures
        r@ == start_spec(transfer_op(request, false), request.root_path@),
{
    transfer(request, false)
}

/// Moves `source_path` to `name` inside `target_parent_path`: a rename, or
/// where the rename fails a copy followed by the deletion of the source.
pub fn move_entry(request: FileTransferRequest) -> (r: ManageStep)
    ensures
        r@ == start_spec(transfer_op(request, true), request.root_path@),
{
    transfer(request, true)
}

/// Deletes the entry at `relative_path` (a directory with what it holds).
pub fn delete(request: FileDeleteRequest) -> (r: ManageStep)
    ensures
        r@ == start_spec(ManageOpV::Delete { rel: request.relative_path@ }, request.root_path@),
{
    start(ManageOp::Delete { rel: request.relative_path }, request.root_path)
}

/// Creates an empty file, or a directory when `kind` is `directory`.
pub fn create(request: FileCreateRequest) -> (r: ManageStep)
    ensures
        r@ == start_spec(
            ManageOpV::Create {
                parent: request.parent_path@,
                name: request.name@,
                overwrite: request.overwrite,
                directory: request.kind@ == "directory"@,
            },
            request.root_path@,
        ),
{
    let directory = same_text(request.kind.as_str(), "directory");
    start(
        ManageOp::Create {
            parent: request.parent_path,
            name: request.name,
            overwrite: request.overwrite,
            directory,
        },
        request.root_path,
    )
}

/// Renames the entry at `relative_path` to `new_name` in the same directory.
pub fn rename(request: FileRenameRequest) -> (r: ManageStep)
    ensures
        r@ == start_spec(
            ManageOpV::Rename {
                rel: request.relative_path@,
                new_name: request.new_name@,
                overwrite: request.overwrite,
            },
            request.root_path@,
        ),
{
    start(
        ManageOp::Rename {
            rel: request.relative_path,
            new_name: request.new_name,
            overwrite: request.overwrite,
        },
        request.root_path,
    )
}

/// Replaces the content of the file at `relative_path` with `content`
/// (UTF-8), creating it when missing; content over the limit is refused
/// before anything else.
pub fn write_text(request: FileWriteTextRequest) -> (r: ManageStep)
    ensures
        encode_utf8(request.content@).len() > MAX_TEXT_WRITE_BYTES ==> r@ == fail(
            "remote_file_too_large"@,
        ),
        encode_utf8(request.content@).len() <= MAX_TEXT_WRITE_BYTES ==> r@ == start_spec(
            ManageOpV::WriteText {
                rel: request.relative_path@,
                content: encode_utf8(request.content@),
            },
            request.root_path@,
        ),
{
    let bytes = vstd::slice::slice_to_vec(request.content.as_str().as_bytes());
    if bytes.len() > MAX_TEXT_WRITE_BYTES {
        return fail_str("remote_file_too_large");
    }
    start(ManageOp::WriteText { rel: request.relative_path, content: bytes }, request.root_path)
}

/// What `write_bytes` does before it asks the file system.
pub open spec fn write_bytes_spec(request: FileWriteBytesRequest) -> ManageStepV {
    match b64_decode(request.data_base64@) {
        None => fail("remote_file_bytes_invalid"@),
        Some(d) => match write_check_spec(d.len(), request.offset) {
            Err(e) => fail(e),
            Ok(_) => start_spec(
                ManageOpV::WriteBytes {
                    parent: request.parent_path@,
                    name: request.name@,
                    data: d,
                    overwrite: request.overwrite,
                    offset: request.offset,
                },
                request.root_path@,
            ),
        },
    }
}

/// Writes a chunk of base64 data into `name` inside `parent_path`: at offset
/// 0 the file is created (or replaced when overwriting), past 0 the chunk is
/// written into the existing file.
pub fn write_bytes(request: FileWriteBytesRequest) -> (r: ManageStep)
    ensures
        r@ == write_bytes_spec(request),
{
    let data = match decode_standard(request.data_base64.as_str()) {
        Some(d) => d,
        None => return fail_str("remote_file_bytes_invalid"),
    };
    match write_check(data.len(), request.offset) {
        Err(e) => fail_with(e),
        Ok(()) => start(
            ManageOp::WriteBytes {
                parent: request.parent_path,
                name: request.name,
                data,
                overwrite: request.overwrite,
                offset: request.offset,
            },
            request.root_path,
        ),
    }
}

/// Reads up to a chunk of the file at `relative_path` from `offset`.
pub fn read_bytes(request: FileReadBytesRequest) -> (r: ManageStep)
    ensures
        r@ == start_spec(
            ManageOpV::ReadBytes {
                rel: request.relative_path@,
                offset: request.offset,
                length: request.length,
            },
            request.root_path@,
        ),
{
    start(
        ManageOp::ReadBytes {
            rel: request.relative_path,
            offset: request.offset,
            length: request.length,
        },
        request.root_path,
    )
}


/// A name as a directory listing gives it: one path component.
pub open spec fn plain_name(n: Seq<char>) -> bool {
    n.len() > 0 && !n.contains('/') && n != "."@ && n != ".."@
}

/// A path as `canonicalize` spells it: absolute, and without a trailing
/// separator unless it is `/`.
pub open spec fn canonical_spelling(p: Seq<char>) -> bool {
    p.len() > 0 && p[0] == '/' && (p.len() == 1 || p.last() != '/')
}

/// A reply as the file system gives it: canonical paths are canonical
/// spellings, and listed names are single components.
pub open spec fn reply_sound(r: FsReplyV) -> bool {
    match r {
        FsReplyV::Path(Some(p)) => canonical_spelling(p),
        FsReplyV::Entries(l) => forall|i: int| 0 <= i < l.items.len() ==> plain_name(#[trigger] l.items[i].name),
        _ => true,
    }
}

pub open spec fn frames_within(frames: Seq<CopyFrameV>, root: Seq<char>) -> bool {
    forall|i: int|
        0 <= i < frames.len() ==> within(#[trigger] frames[i].dest, root) && forall|j: int|
            0 <= j < frames[i].items.len() ==> plain_name(#[trigger] frames[i].items[j].name)
}

/// What holds of a managed operation between steps: the paths it will
/// change lie under its root.
pub open spec fn manage_inv(m: FileManageV) -> bool {
    let ph = m.phase;
    &&& !(ph is RootCanon) ==> canonical_spelling(m.root)
    &&& m.second ==> canonical_spelling(m.saved_root)
    &&& (ph is ExistMeta || ph is DelProbe) ==> within(m.path, m.root)
    &&& ((ph is ParentCanon || ph is ParentMeta || ph is ProbeTarget || ph is ClearTarget) && (
    m.op is Rename || m.op is Transfer)) ==> within(m.path, m.root)
    &&& (ph is ProbeTarget || ph is ClearTarget || ph is TextProbe || ph is AppendProbe
        || ph is Moved || ph is CopyProbe) ==> within(m.target, m.root)
    &&& (ph is DirMade || ph is DirRead) ==> within(m.dest_dir, m.root)
    &&& !(ph is RootCanon || ph is StatProbe) ==> frames_within(m.frames, m.root)
    &&& ph is RootCanon ==> m.frames.len() == 0
    &&& ph is DelProbe ==> (m.op is Delete || m.second)
}

/// The paths a request changes lie under `root`.
pub open spec fn changes_within(q: FsRequestV, root: Seq<char>) -> bool {
    match q {
        FsRequestV::CreateDir(p) => within(p, root),
        FsRequestV::WriteFile(p, _) => within(p, root),
        FsRequestV::WriteAt(p, _, _) => within(p, root),
        FsRequestV::RemoveDirAll(p) => within(p, root),
        FsRequestV::RemoveFile(p) => within(p, root),
        FsRequestV::Rename(a, b) => within(a, root) && within(b, root),
        FsRequestV::CopyFile(_, b) => within(b, root),
        FsRequestV::RemoveDir(p) => within(p, root),
        FsRequestV::CreateDirAll(p) => within(p, root),
        FsRequestV::SetPrivateDir(p) => within(p, root),
        FsRequestV::SetPrivateFile(p) => within(p, root),
        FsRequestV::MakeDir(p) => within(p, root),
        FsRequestV::MakeNewFile(p) => within(p, root),
        FsRequestV::SweepCache(p) => within(p, root),
        _ => true,
    }
}

pub open spec fn step_confined(s: ManageStepV) -> bool {
    s matches ManageStepV::Ask(m2, q) ==> manage_inv(m2) && changes_within(q, m2.root)
}

pub(crate) proof fn lemma_join_within(dest: Seq<char>, name: Seq<char>, root: Seq<char>)
    requires
        within(dest, root),
        canonical_spelling(root),
        plain_name(name),
    ensures
        within(join_spec(dest, name), root),
{
    let j = join_spec(dest, name);
    assert(name[0] != '/') by {
        assert(!name.contains('/'));
        if name[0] == '/' {
            assert(name.contains('/'));
        }
    }
    if root == seq!['/'] {
        assert(dest.len() > 0 && dest[0] == '/');
        assert(j[0] == dest[0]);
    } else {
        if root.len() == 1 {
            assert(root =~= seq!['/']);
        }
        assert(root.last() != '/');
        if dest == root {
            assert(j =~= root + seq!['/'] + name);
            assert(j.take(root.len() as int) =~= root);
        } else {
            assert(dest.take(root.len() as int) == root);
            assert(j.take(root.len() as int) =~= dest.take(root.len() as int));
            assert(j[root.len() as int] == dest[root.len() as int]);
        }
    }
}

proof fn lemma_copy_advance_confined(m: FileManageV)
    requires
        canonical_spelling(m.root),
        m.second ==> canonical_spelling(m.saved_root),
        frames_within(m.frames, m.root),
    ensures
        step_confined(copy_advance_spec(m)),
    decreases m.frames.len(), copy_measure(m),
{
    if m.frames.len() == 0 {
    } else {
        let f = m.frames.last();
        let last = m.frames.len() - 1;
        assert(within(f.dest, m.root));
        if 0 <= f.next < f.items.len() {
            let it = f.items[f.next];
            assert(plain_name(it.name));
            let m2 = FileManageV {
                frames: m.frames.update(last, CopyFrameV { next: f.next + 1, ..f }),
                ..m
            };
            assert(frames_within(m2.frames, m2.root)) by {
                assert forall|i: int| 0 <= i < m2.frames.len() implies within(#[trigger] m2.frames[i].dest, m2.root)
                    && forall|j: int| 0 <= j < m2.frames[i].items.len() ==> plain_name(#[trigger] m2.frames[i].items[j].name) by {
                    assert(within(m.frames[i].dest, m.root));
                    if i == last {
                        assert forall|j: int| 0 <= j < m2.frames[i].items.len() implies plain_name(#[trigger] m2.frames[i].items[j].name) by {
                            assert(plain_name(m.frames[i].items[j].name));
                        }
                    } else {
                        assert(m2.frames[i] == m.frames[i]);
                        assert forall|j: int| 0 <= j < m2.frames[i].items.len() implies plain_name(#[trigger] m2.frames[i].items[j].name) by {
                            assert(plain_name(m.frames[i].items[j].name));
                        }
                    }
                }
            }
            match it.kind {
                None => {},
                Some(k) => {
                    if k.is_symlink {
                        lemma_copy_advance_confined(m2);
                    } else {
                        lemma_join_within(f.dest, it.name, m.root);
                    }
                },
            }
        } else if !f.complete {
        } else {
            let m2 = FileManageV { frames: m.frames.drop_last(), ..m };
            assert(frames_within(m2.frames, m2.root)) by {
                assert forall|i: int| 0 <= i < m2.frames.len() implies within(#[trigger] m2.frames[i].dest, m2.root)
                    && forall|j: int| 0 <= j < m2.frames[i].items.len() ==> plain_name(#[trigger] m2.frames[i].items[j].name) by {
                    assert(m2.frames[i] == m.frames[i]);
                    assert(within(m.frames[i].dest, m.root));
                    assert forall|j: int| 0 <= j < m2.frames[i].items.len() implies plain_name(#[trigger] m2.frames[i].items[j].name) by {
                        assert(plain_name(m.frames[i].items[j].name));
                    }
                }
            }
            if m2.frames.len() == 0 {
            } else {
                lemma_copy_advance_confined(m2);
            }
        }
    }
}

proof fn lemma_root_ready_confined(m: FileManageV)
    requires
        canonical_spelling(m.root),
        frames_within(m.frames, m.root),
        m.second ==> canonical_spelling(m.saved_root),
    ensures
        step_confined(root_ready_spec(m)),
{
}

proof fn lemma_exist_ready_confined(m: FileManageV)
    requires
        canonical_spelling(m.root),
        frames_within(m.frames, m.root),
        m.second ==> canonical_spelling(m.saved_root),
        within(m.path, m.root),
    ensures
        step_confined(exist_ready_spec(m)),
{
}

proof fn lemma_prepared_confined(m: FileManageV)
    requires
        canonical_spelling(m.root),
        frames_within(m.frames, m.root),
        m.second ==> canonical_spelling(m.saved_root),
        within(m.target, m.root),
        (m.op is Rename || m.op is Transfer) ==> within(m.path, m.root),
    ensures
        step_confined(prepared_spec(m)),
{
}

proof fn lemma_parent_ready_confined(m: FileManageV)
    requires
        canonical_spelling(m.root),
        frames_within(m.frames, m.root),
        m.second ==> canonical_spelling(m.saved_root),
        (m.op is Rename || m.op is Transfer) ==> within(m.path, m.root),
    ensures
        step_confined(parent_ready_spec(m)),
{
}

proof fn lemma_copy_done_confined(m: FileManageV)
    requires
        canonical_spelling(m.root),
        frames_within(m.frames, m.root),
        m.second ==> canonical_spelling(m.saved_root),
    ensures
        step_confined(copy_done_spec(m)),
{
}

/// A managed operation only asks to change paths that lie under the root it
/// resolved: whatever the file system answers (given that it spells
/// canonical paths canonically and lists plain names), every directory it
/// creates, file it writes, entry it removes, renames or copies onto is the
/// root or below it, and this holds at every later step too.
#[verifier::spinoff_prover]
pub proof fn lemma_manage_step_confined(m: FileManageV, r: FsReplyV)
    requires
        manage_inv(m),
        reply_sound(r),
    ensures
        step_confined(step_spec(m, r)),
{
    match m.phase {
        Phase::RootCanon => {
            match r {
                FsReplyV::Path(Some(c)) => {
                    let m2 = FileManageV { phase: Phase::RootIsDir, root: c, ..m };
                    assert(step_spec(m, r) == ManageStepV::Ask(m2, FsRequestV::Metadata(c)));
                },
                _ => {
                    assert(step_spec(m, r) is Finished);
                },
            }
        },
        Phase::RootIsDir => {
            lemma_root_ready_confined(m);
        },
        Phase::ExistCanon => { assert(step_confined(step_spec(m, r))); },
        Phase::ExistMeta => {
            lemma_exist_ready_confined(m);
        },
        Phase::ParentCanon => { assert(step_confined(step_spec(m, r))); },
        Phase::ParentMeta => {
            lemma_parent_ready_confined(m);
        },
        Phase::ProbeTarget => {
            lemma_prepared_confined(m);
        },
        Phase::ClearTarget => {
            lemma_prepared_confined(m);
        },
        Phase::Make => { assert(step_confined(step_spec(m, r))); },
        Phase::Moved => { assert(step_confined(step_spec(m, r))); },
        Phase::CopyProbe => { assert(step_confined(step_spec(m, r))); },
        Phase::CopyFileDone => {
            lemma_copy_done_confined(m);
        },
        Phase::DirMade => { assert(step_confined(step_spec(m, r))); },
        Phase::DirRead => {
            let l = reply_listing(r);
            let m2 = FileManageV {
                frames: m.frames.push(
                    CopyFrameV { items: l.items, next: 0, dest: m.dest_dir, complete: l.complete },
                ),
                ..m
            };
            assert(frames_within(m2.frames, m2.root)) by {
                assert forall|i: int| 0 <= i < m2.frames.len() implies within(#[trigger] m2.frames[i].dest, m2.root)
                    && forall|j: int| 0 <= j < m2.frames[i].items.len() ==> plain_name(#[trigger] m2.frames[i].items[j].name) by {
                    if i < m.frames.len() {
                        assert(m2.frames[i] == m.frames[i]);
                        assert(within(m.frames[i].dest, m.root));
                        assert forall|j: int| 0 <= j < m2.frames[i].items.len() implies plain_name(#[trigger] m2.frames[i].items[j].name) by {
                            assert(plain_name(m.frames[i].items[j].name));
                        }
                    } else {
                        assert forall|j: int| 0 <= j < m2.frames[i].items.len() implies plain_name(#[trigger] m2.frames[i].items[j].name) by {
                            if r is Entries {
                                assert(plain_name(l.items[j].name));
                            }
                        }
                    }
                }
            }
            lemma_copy_advance_confined(m2);
        },
        Phase::EntryCopied => {
            if reply_done(r) {
                lemma_copy_advance_confined(m);
            }
        },
        Phase::DelProbe => { assert(step_confined(step_spec(m, r))); },
        Phase::DelDone => { assert(step_confined(step_spec(m, r))); },
        Phase::TextProbe => { assert(step_confined(step_spec(m, r))); },
        Phase::AppendProbe => { assert(step_confined(step_spec(m, r))); },
        Phase::Written => { assert(step_confined(step_spec(m, r))); },
        Phase::ReadProbe => { assert(step_confined(step_spec(m, r))); },
        Phase::ReadDone => { assert(step_confined(step_spec(m, r))); },
        Phase::StatProbe => { assert(step_confined(step_spec(m, r))); },
    }
}

/// The first step of every managed operation satisfies the invariant.
pub proof fn lemma_manage_start_confined(op: ManageOpV, root_text: Seq<char>)
    ensures
        step_confined(start_spec(op, root_text)),
{
}


/// The removals a step asks for: only a target being overwritten, or the
/// entry a delete (or a move, once copied) takes away.
pub open spec fn removal_allowed(m: FileManageV, s: ManageStepV) -> bool {
    match s {
        ManageStepV::Ask(m2, FsRequestV::RemoveDirAll(p)) => (p == m2.target && op_overwrite(m.op))
            || ((m.op is Delete || m.second) && p == m2.path),
        ManageStepV::Ask(m2, FsRequestV::RemoveFile(p)) => (p == m2.target && op_overwrite(m.op))
            || ((m.op is Delete || m.second) && p == m2.path),
        _ => true,
    }
}

proof fn lemma_copy_advance_keeps(m: FileManageV)
    ensures
        removal_allowed(m, copy_advance_spec(m)),
    decreases m.frames.len(), copy_measure(m),
{
    if m.frames.len() > 0 {
        let f = m.frames.last();
        let last = m.frames.len() - 1;
        if 0 <= f.next < f.items.len() {
            let m2 = FileManageV {
                frames: m.frames.update(last, CopyFrameV { next: f.next + 1, ..f }),
                ..m
            };
            lemma_copy_advance_keeps(m2);
        } else if f.complete {
            let m2 = FileManageV { frames: m.frames.drop_last(), ..m };
            if m2.frames.len() > 0 {
                lemma_copy_advance_keeps(m2);
            }
        }
    }
}

/// Nothing is removed that the client did not ask to lose: a step removes
/// either the target of a change made with `overwrite`, or the entry that a
/// delete, or a move whose rename failed and whose copy is complete, takes
/// away. Without `overwrite`, an existing target is left as it was.
#[verifier::spinoff_prover]
#[verifier::rlimit(40)]
pub proof fn lemma_manage_removals_asked(m: FileManageV, r: FsReplyV)
    requires
        manage_inv(m),
    ensures
        removal_allowed(m, step_spec(m, r)),
{
    match m.phase {
        Phase::DirRead => {
            let l = reply_listing(r);
            let m2 = FileManageV {
                frames: m.frames.push(
                    CopyFrameV { items: l.items, next: 0, dest: m.dest_dir, complete: l.complete },
                ),
                ..m
            };
            lemma_copy_advance_keeps(m2);
        },
        Phase::EntryCopied => {
            lemma_copy_advance_keeps(m);
        },
        _ => {},
    }
}

/// A read gives back what a write wrote. Where the file system answers
/// as `disk` says (metadata with the length of the file it holds, a write
/// changing it as `disk_after` says, a read answered with the bytes
/// `read_at` gives):
/// - a bytes write of `data` at `offset` into an existing regular file
///   holding `c` (with `offset` at most its length) asks to write exactly
///   `data` there, and once done the file holds `write_at(c, offset, data)`;
///   a bytes write that makes its file asks to write exactly `data` into it;
/// - a bytes read at `offset` of a regular file holding `c` asks for the
///   planned number of bytes there, and reports exactly the bytes it is
///   given back, the file's length, and whether they reach its end;
/// - so a read at the offset of the write, of as many bytes as were
///   written, reports the written bytes.
pub proof fn lemma_read_gives_back_written(
    wm: FileManageV,
    rm: FileManageV,
    x: FileMeta,
    disk: Map<Seq<char>, Seq<u8>>,
    c: Seq<u8>,
    data: Seq<u8>,
)
    ensures
        ({
            &&& wm.phase is AppendProbe
            &&& wm.op matches ManageOpV::WriteBytes { offset, data: d, .. } && d == data
            &&& x.is_file && !x.is_symlink && x.len == c.len()
            &&& disk.contains_key(wm.target) && disk[wm.target] == c
        }) ==> (wm.op matches ManageOpV::WriteBytes { offset, .. } ==> (offset <= c.len() ==> {
            let q = FsRequestV::WriteAt(wm.target, offset, data);
            &&& step_spec(wm, FsReplyV::Meta(MetaReply::Found(x))) == ManageStepV::Ask(
                FileManageV { phase: Phase::Written, ..wm },
                q,
            )
            &&& disk_after(disk, q, FsReplyV::Done(true))[wm.target] == write_at(c, offset as int, data)
        })),
        (wm.op matches ManageOpV::WriteBytes { data: d, .. } && d == data) ==> {
            let q = FsRequestV::WriteFile(wm.target, data);
            &&& prepared_spec(wm) == ManageStepV::Ask(FileManageV { phase: Phase::Written, ..wm }, q)
            &&& disk_after(disk, q, FsReplyV::Done(true))[wm.target] == write_at(Seq::empty(), 0, data)
        },
        ({
            &&& rm.phase is ReadProbe
            &&& x.is_file && !x.is_symlink && x.len == c.len()
        }) ==> (rm.op matches ManageOpV::ReadBytes { offset, length, .. } ==> (read_plan_spec(
            x.len,
            offset,
            length,
        ) matches Ok(n) ==> (n > 0 ==> step_spec(rm, FsReplyV::Meta(MetaReply::Found(x)))
            == ManageStepV::Ask(
            FileManageV { phase: Phase::ReadDone, file_len: x.len, to_read: n, ..rm },
            FsRequestV::ReadAt(rm.path, offset, n),
        )))),
        (rm.phase is ReadDone && relative_spec(rm.root, rm.path) is Some) ==> (rm.op matches ManageOpV::ReadBytes {
            offset,
            ..
        } ==> (step_spec(rm, FsReplyV::Bytes(Some(read_at(c, offset as int, rm.to_read as int)))) matches ManageStepV::Finished(
            Ok(ManageOutcomeV::Bytes(out)),
        ) && out.data_base64 == b64_encode(read_at(c, offset as int, rm.to_read as int))
            && out.size_bytes == rm.file_len && out.offset == offset && out.eof == (offset + rm.to_read
            >= rm.file_len))),
        ({
            &&& rm.phase is ReadDone && relative_spec(rm.root, rm.path) is Some
            &&& rm.op matches ManageOpV::ReadBytes { offset, .. } && offset <= c.len()
            &&& rm.to_read == data.len()
        }) ==> (rm.op matches ManageOpV::ReadBytes { offset, .. } ==> (step_spec(
            rm,
            FsReplyV::Bytes(Some(read_at(write_at(c, offset as int, data), offset as int, rm.to_read as int))),
        ) matches ManageStepV::Finished(Ok(ManageOutcomeV::Bytes(out))) && out.data_base64 == b64_encode(data))),
{
    match rm.op {
        ManageOpV::ReadBytes { offset, .. } => {
            if offset <= c.len() {
                lemma_read_after_write(c, offset as int, data);
            }
        },
        _ => {},
    }
}

/// Where a managed operation ends after it is answered `rs` in turn, from
/// waiting on `q` with the files holding `disk`: how it ended, if it ended
/// within those replies, what the files hold after the requests answered,
/// and the state it was last in.
pub open spec fn manage_run(m: FileManageV, q: FsRequestV, disk: Map<Seq<char>, Seq<u8>>, rs: Seq<FsReplyV>) -> (
    Option<Result<ManageOutcomeV, Seq<char>>>,
    Map<Seq<char>, Seq<u8>>,
    FileManageV,
)
    decreases rs.len(),
{
    if rs.len() == 0 {
        (None, disk, m)
    } else {
        let d2 = disk_after(disk, q, rs[0]);
        match step_spec(m, rs[0]) {
            ManageStepV::Ask(m2, q2) => manage_run(m2, q2, d2, rs.drop_first()),
            ManageStepV::Finished(out) => (Some(out), d2, m),
        }
    }
}

/// Whether every read in a run is answered with the bytes the files hold:
/// a read of `n` bytes at `o` of a file holding `c` gets `read_at(c, o, n)`.
pub open spec fn reads_faithful(m: FileManageV, q: FsRequestV, disk: Map<Seq<char>, Seq<u8>>, rs: Seq<FsReplyV>) -> bool
    decreases rs.len(),
{
    if rs.len() == 0 {
        true
    } else {
        &&& (q matches FsRequestV::ReadAt(p, o, n) ==> (disk.contains_key(p) ==> rs[0] == FsReplyV::Bytes(
            Some(read_at(disk[p], o as int, n as int)),
        )))
        &&& match step_spec(m, rs[0]) {
            ManageStepV::Ask(m2, q2) => reads_faithful(m2, q2, disk_after(disk, q, rs[0]), rs.drop_first()),
            ManageStepV::Finished(_) => true,
        }
    }
}

/// What holds at every point of a bytes read: it reads, changes no file,
/// and once it asks for bytes it asks for `to_read` of them at the
/// requested offset of the file it resolved.
pub open spec fn read_run_inv(m: FileManageV, q: FsRequestV, cur: Map<Seq<char>, Seq<u8>>, start: Map<Seq<char>, Seq<u8>>) -> bool {
    &&& m.op is ReadBytes
    &&& m.phase is RootCanon || m.phase is RootIsDir || m.phase is ExistCanon || m.phase is ExistMeta
        || m.phase is ReadProbe || m.phase is ReadDone
    &&& keeps_contents(q) && cur == start
    &&& !(m.phase is ReadDone) ==> m.to_read == 0
    &&& m.phase is ReadDone ==> q == FsRequestV::ReadAt(m.path, m.op->ReadBytes_offset, m.to_read)
}

#[verifier::spinoff_prover]
#[verifier::rlimit(50)]
proof fn lemma_read_run_step(m: FileManageV, q: FsRequestV, r: FsReplyV, start: Map<Seq<char>, Seq<u8>>)
    requires
        read_run_inv(m, q, start, start),
    ensures
        disk_after(start, q, r) == start,
        step_spec(m, r) matches ManageStepV::Ask(m2, q2) ==> read_run_inv(m2, q2, start, start) && m2.op == m.op,
        step_spec(m, r) matches ManageStepV::Finished(Ok(o)) ==> o matches ManageOutcomeV::Bytes(out) && out.offset
            == m.op->ReadBytes_offset && (if m.phase is ReadDone {
            r matches FsReplyV::Bytes(Some(d)) && out.data_base64 == b64_encode(d) && out.size_bytes == m.file_len
        } else {
            m.to_read == 0 && out.data_base64 == b64_encode(Seq::empty())
        }),
{
    match m.phase {
        Phase::RootCanon => {},
        Phase::RootIsDir => {},
        Phase::ExistCanon => {},
        Phase::ExistMeta => {},
        Phase::ReadProbe => {},
        Phase::ReadDone => {},
        _ => {},
    }
}

proof fn lemma_read_run(m: FileManageV, q: FsRequestV, start: Map<Seq<char>, Seq<u8>>, rs: Seq<FsReplyV>)
    requires
        read_run_inv(m, q, start, start),
        reads_faithful(m, q, start, rs),
    ensures
        manage_run(m, q, start, rs).1 == start,
        manage_run(m, q, start, rs).2.op == m.op,
        manage_run(m, q, start, rs).0 matches Some(Ok(o)) ==> {
            let mf = manage_run(m, q, start, rs).2;
            &&& o matches ManageOutcomeV::Bytes(out)
            &&& out.offset == m.op->ReadBytes_offset
            &&& mf.phase is ReadDone ==> (start.contains_key(mf.path) ==> out.data_base64 == b64_encode(
                read_at(start[mf.path], out.offset as int, mf.to_read as int),
            ) && out.size_bytes == mf.file_len)
            &&& !(mf.phase is ReadDone) ==> out.data_base64 == b64_encode(Seq::empty()) && mf.to_read == 0
        },
    decreases rs.len(),
{
    if rs.len() > 0 {
        lemma_read_run_step(m, q, rs[0], start);
        match step_spec(m, rs[0]) {
            ManageStepV::Ask(m2, q2) => {
                lemma_read_run(m2, q2, start, rs.drop_first());
            },
            ManageStepV::Finished(_) => {},
        }
    }
}

/// What a bytes write leaves in its target, measured against the files
/// `start` held before it: a write at offset 0 makes the target hold just
/// the data; a write further on lands in the file the target was.
pub open spec fn bytes_written(m: FileManageV, cur: Map<Seq<char>, Seq<u8>>, start: Map<Seq<char>, Seq<u8>>) -> bool {
    let offset = m.op->WriteBytes_offset;
    let data = m.op->WriteBytes_data;
    &&& offset == 0 ==> cur.contains_key(m.target) && cur[m.target] == data
    &&& offset != 0 ==> (start.contains_key(m.target) ==> cur.contains_key(m.target) && cur[m.target]
        == write_at(start[m.target], offset as int, data))
}

/// What holds at every point of a bytes write: until it writes, it changes
/// no file but, when overwriting, its target; it writes exactly its data
/// into its target, at its offset; and after the write it only looks at the
/// target, which holds what `bytes_written` says.
pub open spec fn write_run_inv(m: FileManageV, q: FsRequestV, cur: Map<Seq<char>, Seq<u8>>, start: Map<Seq<char>, Seq<u8>>) -> bool {
    let offset = m.op->WriteBytes_offset;
    let data = m.op->WriteBytes_data;
    &&& m.op is WriteBytes
    &&& m.phase is RootCanon || m.phase is RootIsDir || m.phase is ParentCanon || m.phase is ParentMeta
        || m.phase is ProbeTarget || m.phase is ClearTarget || m.phase is AppendProbe || m.phase is Written
        || m.phase is StatProbe
    &&& (m.phase is RootCanon || m.phase is RootIsDir || m.phase is ParentCanon || m.phase is ParentMeta
        || m.phase is ProbeTarget || m.phase is AppendProbe) ==> keeps_contents(q) && cur == start
    &&& (m.phase is ProbeTarget || m.phase is ClearTarget) ==> offset == 0
    &&& m.phase is AppendProbe ==> offset != 0
    &&& m.phase is ClearTarget ==> (q == FsRequestV::RemoveFile(m.target) || q == FsRequestV::RemoveDirAll(m.target))
    &&& m.phase is Written ==> if offset == 0 {
        q == FsRequestV::WriteFile(m.target, data)
    } else {
        q == FsRequestV::WriteAt(m.target, offset, data) && cur == start
    }
    &&& m.phase is StatProbe ==> keeps_contents(q) && m.stat_at == m.target && bytes_written(m, cur, start)
}

#[verifier::spinoff_prover]
#[verifier::rlimit(80)]
proof fn lemma_write_run_step(
    m: FileManageV,
    q: FsRequestV,
    r: FsReplyV,
    cur: Map<Seq<char>, Seq<u8>>,
    start: Map<Seq<char>, Seq<u8>>,
)
    requires
        write_run_inv(m, q, cur, start),
    ensures
        step_spec(m, r) matches ManageStepV::Ask(m2, q2) ==> write_run_inv(m2, q2, disk_after(cur, q, r), start)
            && m2.op == m.op,
        step_spec(m, r) matches ManageStepV::Finished(Ok(_)) ==> m.phase is StatProbe && disk_after(cur, q, r)
            == cur && bytes_written(m, cur, start),
{
    let d2 = disk_after(cur, q, r);
    if keeps_contents(q) {
        assert(d2 == cur);
    }
    match m.phase {
        Phase::RootCanon => {},
        Phase::RootIsDir => {},
        Phase::ParentCanon => {},
        Phase::ParentMeta => {},
        Phase::ProbeTarget => {},
        Phase::ClearTarget => {},
        Phase::AppendProbe => {},
        Phase::Written => {},
        Phase::StatProbe => {},
        _ => {},
    }
}

proof fn lemma_write_run(
    m: FileManageV,
    q: FsRequestV,
    cur: Map<Seq<char>, Seq<u8>>,
    start: Map<Seq<char>, Seq<u8>>,
    rs: Seq<FsReplyV>,
)
    requires
        write_run_inv(m, q, cur, start),
    ensures
        manage_run(m, q, cur, rs).2.op == m.op,
        manage_run(m, q, cur, rs).0 matches Some(Ok(_)) ==> bytes_written(
            manage_run(m, q, cur, rs).2,
            manage_run(m, q, cur, rs).1,
            start,
        ),
    decreases rs.len(),
{
    if rs.len() > 0 {
        lemma_write_run_step(m, q, rs[0], cur, start);
        match step_spec(m, rs[0]) {
            ManageStepV::Ask(m2, q2) => {
                lemma_write_run(m2, q2, disk_after(cur, q, rs[0]), start, rs.drop_first());
            },
            ManageStepV::Finished(_) => {},
        }
    }
}

/// A read gives back what a write wrote, over two whole operations and
/// whatever the file system answers, as long as it answers reads with the
/// bytes the files hold. A bytes write of `data` at `offset` that succeeds
/// leaves its target holding just `data` (at offset 0) or the file it was
/// with `data` written at `offset`; a bytes read that then succeeds reports
/// its offset and, when it read from the file the write wrote, at that
/// offset, as many bytes as were written, exactly the written data.
pub proof fn lemma_write_then_read(
    parent: Seq<char>,
    name: Seq<char>,
    data: Seq<u8>,
    overwrite: bool,
    offset: u64,
    write_root: Seq<char>,
    rel: Seq<char>,
    length: u64,
    read_root: Seq<char>,
    disk: Map<Seq<char>, Seq<u8>>,
    write_replies: Seq<FsReplyV>,
    read_replies: Seq<FsReplyV>,
)
    ensures
        ({
            let wop = ManageOpV::WriteBytes { parent, name, data, overwrite, offset };
            let rop = ManageOpV::ReadBytes { rel, offset, length };
            start_spec(wop, write_root) matches ManageStepV::Ask(wm, wq) ==> {
                let (wout, written, wl) = manage_run(wm, wq, disk, write_replies);
                wout matches Some(Ok(_)) ==> {
                    &&& bytes_written(wl, written, disk)
                    &&& start_spec(rop, read_root) matches ManageStepV::Ask(rm, rq) ==> (reads_faithful(
                        rm,
                        rq,
                        written,
                        read_replies,
                    ) ==> {
                        let (rout, after, rl) = manage_run(rm, rq, written, read_replies);
                        &&& after == written
                        &&& rout matches Some(Ok(o)) ==> (o matches ManageOutcomeV::Bytes(out) && out.offset
                            == offset && ((rl.phase is ReadDone && rl.path == wl.target && rl.to_read
                            == data.len() && (offset == 0 || (disk.contains_key(wl.target) && offset
                            <= disk[wl.target].len()))) ==> out.data_base64 == b64_encode(data)))
                    })
                }
            }
        }),
{
    let wop = ManageOpV::WriteBytes { parent, name, data, overwrite, offset };
    let rop = ManageOpV::ReadBytes { rel, offset, length };
    match start_spec(wop, write_root) {
        ManageStepV::Ask(wm, wq) => {
            lemma_write_run(wm, wq, disk, disk, write_replies);
            let (wout, written, wl) = manage_run(wm, wq, disk, write_replies);
            match start_spec(rop, read_root) {
                ManageStepV::Ask(rm, rq) => {
                    if reads_faithful(rm, rq, written, read_replies) {
                        lemma_read_run(rm, rq, written, read_replies);
                        if wout matches Some(Ok(_)) {
                            if offset == 0 {
                                lemma_read_after_write(Seq::empty(), 0, data);
                                assert(write_at(Seq::empty(), 0, data) =~= data);
                            } else if disk.contains_key(wl.target) && offset <= disk[wl.target].len() {
                                lemma_read_after_write(disk[wl.target], offset as int, data);
                            }
                        }
                    }
                },
                _ => {},
            }
        },
        _ => {},
    }
}

/// A delete removes what its probe found: once the entry to delete is known
/// to exist and to be no link, a directory is asked to be removed with all
/// it holds, and anything else is asked to be removed as a file; the entry
/// is deleted exactly when that removal is done.
pub proof fn lemma_delete_follows_entry_kind(m: FileManageV, x: FileMeta, r: FsReplyV)
    requires
        m.phase is DelProbe,
        !x.is_symlink,
    ensures
        step_spec(m, FsReplyV::Meta(MetaReply::Found(x))) matches ManageStepV::Ask(m2, q) && m2.phase is DelDone
            && m2.path == m.path && m2.second == m.second,
        x.is_dir ==> (step_spec(m, FsReplyV::Meta(MetaReply::Found(x))) matches ManageStepV::Ask(_, q) && q
            == FsRequestV::RemoveDirAll(m.path)),
        !x.is_dir ==> (step_spec(m, FsReplyV::Meta(MetaReply::Found(x))) matches ManageStepV::Ask(_, q) && q
            == FsRequestV::RemoveFile(m.path)),
        m.op is Delete && !m.second ==> (step_spec(FileManageV { phase: Phase::DelDone, ..m }, r)
            == ManageStepV::Finished(Ok(ManageOutcomeV::Deleted)) <==> r == FsReplyV::Done(true)),
{
}

/// A bytes read reads as much as was asked, and no more: for a regular
/// file of `len` bytes (at most 20 MiB) and an offset within it, a read of
/// `length` bytes (at most 512 KiB) reads the `length` bytes at the offset,
/// or those up to the end when fewer remain; a read of length 0 reads a
/// whole 512 KiB chunk, or up to the end. It asks the file system for
/// exactly that many bytes when there are any, and reports end of file
/// exactly when they reach the end.
pub proof fn lemma_read_amount(m: FileManageV, x: FileMeta, rel: Seq<char>, offset: u64, length: u64)
    requires
        m.phase is ReadProbe,
        m.op == (ManageOpV::ReadBytes { rel, offset, length }),
        x.is_file,
        !x.is_symlink,
        x.len <= MAX_MANAGE_BYTES,
        offset <= x.len,
        length <= MAX_CHUNK_BYTES,
    ensures
        ({
            let want: int = if length == 0 { MAX_CHUNK_BYTES as int } else { length as int };
            let n: int = if x.len - offset < want { x.len - offset } else { want };
            &&& read_plan_spec(x.len, offset, length) == Ok::<u64, Seq<char>>(n as u64)
            &&& length > 0 ==> n <= length
            &&& n > 0 ==> (step_spec(m, FsReplyV::Meta(MetaReply::Found(x))) matches ManageStepV::Ask(m2, q) && q
                == FsRequestV::ReadAt(m.path, offset, n as u64) && m2.to_read == n && m2.file_len == x.len)
            &&& n > 0 ==> (step_spec(m, FsReplyV::Meta(MetaReply::Found(x))) matches ManageStepV::Ask(m2, _) && (
                relative_spec(m.root, m.path) is Some ==> forall|d: Seq<u8>| #[trigger] step_spec(
                m2,
                FsReplyV::Bytes(Some(d)),
            ) matches ManageStepV::Finished(Ok(ManageOutcomeV::Bytes(out))) && out.eof == (offset + n
                >= x.len) && out.data_base64 == b64_encode(d)))
        }),
{
}

/// The overwrite flag an operation acts on is the one in its request: when
/// the target of a create, rename, copy or move, or of a bytes write,
/// exists and is no link, the operation fails with `target_exists` unless
/// its request asks to overwrite, and then it asks to remove the target
/// (a directory with all it holds) instead; once that is done, a rename
/// asks to rename its entry onto the target.
pub proof fn lemma_overwrite_as_requested(m: FileManageV, x: FileMeta)
    requires
        m.phase is ProbeTarget,
        !x.is_symlink,
    ensures
        ({
            let asked = match m.op {
                ManageOpV::Create { overwrite, .. } => overwrite,
                ManageOpV::Rename { overwrite, .. } => overwrite,
                ManageOpV::Transfer { overwrite, .. } => overwrite,
                ManageOpV::WriteBytes { overwrite, .. } => overwrite,
                _ => false,
            };
            let step = step_spec(m, FsReplyV::Meta(MetaReply::Found(x)));
            &&& !asked ==> step == ManageStepV::Finished(Err("target_exists"@))
            &&& asked ==> (step matches ManageStepV::Ask(m2, q) && m2.phase is ClearTarget && m2.target
                == m.target && q == (if x.is_dir {
                FsRequestV::RemoveDirAll(m.target)
            } else {
                FsRequestV::RemoveFile(m.target)
            }))
        }),
        m.op is Rename ==> step_spec(FileManageV { phase: Phase::ClearTarget, ..m }, FsReplyV::Done(true))
            == ManageStepV::Ask(FileManageV { phase: Phase::Moved, ..m }, FsRequestV::Rename(m.path, m.target)),
{
}

} // verus!
