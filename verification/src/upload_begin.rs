//! Starting an attachment upload: the checks on the request, the private
//! cache directories the upload is received in, and its fresh temporary file.

use vstd::prelude::*;
use crate::files::{
    attachment_extension, attachment_extension_spec, attachment_name_ok, normalize_sha256,
    session_id_ok, sha256_text_ok, validate_attachment_name, validate_attachment_session_id,
    FileAttachBeginRequest, FileAttachBeginResult, MAX_ACTIVE_ATTACHMENT_UPLOADS,
    MAX_ATTACHMENT_BYTES, MAX_LEGACY_IMAGE_ATTACHMENT_BYTES,
};
use crate::fsproto::{
    reply_done, reply_made, reply_meta, reply_path, take_done, take_made, take_meta, take_path,
    FsReply, FsReplyV, FsRequest, FsRequestV, MakeReply, MetaReply,
};
use crate::hashing::sha256_new;
use crate::paths::{join, join_spec, path_within, within};
use crate::file_manage::{canonical_spelling, lemma_join_within, plain_name, reply_sound};
use crate::files::legacy_image_extension;
use crate::text::{ascii_lower, concat, copy_string, trim};
use crate::uploads::{
    AttachmentKind, FileAttachmentUploads, PendingFileAttachment, PendingV,
};

verus! {

/// The attachment cache: `xdg_cache_home` when it is set and not empty,
/// else `.cache` under `home`, then `cli-manager-ssh-agent/attachments`
/// below it; `attachment_cache_root_invalid` when that base is not
/// absolute.
pub open spec fn cache_root_spec(xdg_cache_home: Option<Seq<char>>, home: Seq<char>) -> Result<
    Seq<char>,
    Seq<char>,
> {
    let base = match xdg_cache_home {
        Some(x) => if x.len() > 0 {
            x
        } else {
            join_spec(home, ".cache"@)
        },
        None => join_spec(home, ".cache"@),
    };
    if !(base.len() > 0 && base[0] == '/') {
        Err("attachment_cache_root_invalid"@)
    } else {
        Ok(join_spec(join_spec(base, "cli-manager-ssh-agent"@), "attachments"@))
    }
}

/// Where attachments are cached (see `cache_root_spec`); `home` is the
/// user's home directory and `xdg_cache_home` the value of
/// `XDG_CACHE_HOME`, as the environment gives them.
pub fn attachment_cache_root(xdg_cache_home: Option<String>, home: String) -> (r: Result<String, String>)
    ensures
        match cache_root_spec(opt_view(xdg_cache_home), home@) {
            Ok(p) => r matches Ok(s) && s@ == p,
            Err(e) => r matches Err(x) && x@ == e,
        },
{
    let base = match xdg_cache_home {
        Some(x) => if x.as_str().is_empty() {
            join(home.as_str(), ".cache")
        } else {
            x
        },
        None => join(home.as_str(), ".cache"),
    };
    let c = crate::text::chars_of(base.as_str());
    if !(c.len() > 0 && c[0] == '/') {
        return Err(String::from_str("attachment_cache_root_invalid"));
    }
    let a = join(base.as_str(), "cli-manager-ssh-agent");
    Ok(join(a.as_str(), "attachments"))
}

/// The largest size a begin request may declare for its kind.
pub open spec fn max_bytes_for(kind: AttachmentKind) -> u64 {
    match kind {
        AttachmentKind::LegacyImage => MAX_LEGACY_IMAGE_ATTACHMENT_BYTES,
        AttachmentKind::AnyFile => MAX_ATTACHMENT_BYTES,
    }
}

/// The checks a begin request passes before the cache is touched, in
/// order: the extension a legacy image keeps (none for any file) and the
/// normalized digest, or the error of the first check that fails.
pub open spec fn begin_check_spec(
    count: nat,
    session_id: Seq<char>,
    file_name: Seq<char>,
    size: u64,
    sha: Seq<char>,
    kind: AttachmentKind,
) -> Result<(Option<Seq<char>>, Seq<char>), Seq<char>> {
    if count >= MAX_ACTIVE_ATTACHMENT_UPLOADS {
        Err("attachment_upload_limit_reached"@)
    } else if !session_id_ok(session_id) {
        Err("attachment_session_invalid"@)
    } else if size == 0 {
        Err("attachment_empty"@)
    } else if size > max_bytes_for(kind) {
        Err("attachment_too_large"@)
    } else if !attachment_name_ok(file_name) {
        Err("attachment_name_invalid"@)
    } else {
        let ext: Result<Option<Seq<char>>, Seq<char>> = match kind {
            AttachmentKind::LegacyImage => match attachment_extension_spec(file_name) {
                Ok(x) => Ok(Some(x)),
                Err(e) => Err(e),
            },
            AttachmentKind::AnyFile => Ok(None),
        };
        match ext {
            Err(e) => Err(e),
            Ok(x) => if !sha256_text_ok(sha) {
                Err("attachment_sha256_invalid"@)
            } else {
                Ok((x, ascii_lower(trim(sha))))
            },
        }
    }
}

/// A fresh upload id as `uuid` spells a random UUID: 36 characters, the
/// hyphens at 8, 13, 18 and 23, lower-case hex digits elsewhere.
pub open spec fn upload_id_shape(id: Seq<char>) -> bool {
    id.len() == 36 && forall|i: int|
        0 <= i < 36 ==> if i == 8 || i == 13 || i == 18 || i == 23 {
            #[trigger] id[i] == '-'
        } else {
            ('0' <= id[i] <= '9') || ('a' <= id[i] <= 'f')
        }
}

/// `uuid::Uuid::new_v4().to_string()`: a random UUID in its hyphenated
/// lower-case spelling. Which one comes out is chance; only its spelling
/// is stated.
#[verifier::external_body]
fn new_upload_id() -> (r: String)
    ensures
        upload_id_shape(r@),
{
    uuid::Uuid::new_v4().to_string()
}

/// Where a starting upload stands: the reply it waits for.
#[derive(Clone, Copy)]
pub enum BeginPhase {
    /// The cache root created with its ancestors.
    RootMade,
    /// The cache root's own metadata.
    RootMeta,
    /// The cache root made private.
    RootPerm,
    /// The cache root canonicalized.
    RootCanon,
    /// The expired attachments swept away.
    Swept,
    /// The session directory's own metadata.
    SessionMeta,
    /// The session directory created.
    SessionMade,
    /// The session directory made private.
    SessionPerm,
    /// The session directory canonicalized.
    SessionCanon,
    /// The upload's own directory created (any-file uploads).
    UploadDirMade,
    /// The upload's directory made private.
    UploadDirPerm,
    /// The upload's directory canonicalized.
    UploadDirCanon,
    /// The temporary file created.
    TempMade,
    /// The temporary file made private.
    TempPerm,
    /// The upload directory of a taken id removed, before the next try.
    RetryAfterRemove,
    /// The temporary file removed after a failure.
    CleanFile,
    /// The upload directory removed after a failure.
    CleanDir,
}

/// An upload being started. It holds the uploads in progress, which it
/// hands back when it is finished.
pub struct AttachBegin {
    pub uploads: FileAttachmentUploads,
    pub session_id: String,
    pub file_name: String,
    pub size_bytes: u64,
    pub kind: AttachmentKind,
    pub legacy_extension: Option<String>,
    pub expected_sha256: String,
    pub phase: BeginPhase,
    pub root: String,
    pub cache_root: String,
    /// The session directory: joined, then canonical.
    pub session_dir: String,
    /// How many ids have been tried.
    pub attempts: u64,
    pub upload_id: String,
    /// The upload's directory (any-file) or the session directory (legacy).
    pub parent_dir: String,
    pub target_path: String,
    pub temporary_path: String,
    /// The directory to remove if the upload fails.
    pub cleanup_dir: Option<String>,
    /// The error to report once the cleanup is done.
    pub error: String,
}

pub open spec fn opt_view(o: Option<String>) -> Option<Seq<char>> {
    match o {
        Some(s) => Some(s@),
        None => None,
    }
}

pub struct AttachBeginV {
    pub uploads: Map<Seq<char>, PendingV>,
    pub session_id: Seq<char>,
    pub file_name: Seq<char>,
    pub size_bytes: u64,
    pub kind: AttachmentKind,
    pub legacy_extension: Option<Seq<char>>,
    pub expected_sha256: Seq<char>,
    pub phase: BeginPhase,
    pub root: Seq<char>,
    pub cache_root: Seq<char>,
    pub session_dir: Seq<char>,
    pub attempts: u64,
    pub upload_id: Seq<char>,
    pub parent_dir: Seq<char>,
    pub target_path: Seq<char>,
    pub temporary_path: Seq<char>,
    pub cleanup_dir: Option<Seq<char>>,
    pub error: Seq<char>,
}

impl View for AttachBegin {
    type V = AttachBeginV;

    open spec fn view(&self) -> AttachBeginV {
        AttachBeginV {
            uploads: self.uploads@,
            session_id: self.session_id@,
            file_name: self.file_name@,
            size_bytes: self.size_bytes,
            kind: self.kind,
            legacy_extension: opt_view(self.legacy_extension),
            expected_sha256: self.expected_sha256@,
            phase: self.phase,
            root: self.root@,
            cache_root: self.cache_root@,
            session_dir: self.session_dir@,
            attempts: self.attempts,
            upload_id: self.upload_id@,
            parent_dir: self.parent_dir@,
            target_path: self.target_path@,
            temporary_path: self.temporary_path@,
            cleanup_dir: opt_view(self.cleanup_dir),
            error: self.error@,
        }
    }
}

/// What a starting upload does next: ask for a file-system request, or
/// hand back the uploads in progress with the id of the new one or the
/// error.
pub enum BeginStep {
    Ask(AttachBegin, FsRequest),
    Finished(FileAttachmentUploads, Result<FileAttachBeginResult, String>),
}

pub enum BeginStepV {
    Ask(AttachBeginV, FsRequestV),
    Finished(Map<Seq<char>, PendingV>, Result<Seq<char>, Seq<char>>),
}

impl View for BeginStep {
    type V = BeginStepV;

    open spec fn view(&self) -> BeginStepV {
        match self {
            BeginStep::Ask(m, q) => BeginStepV::Ask(m@, q@),
            BeginStep::Finished(u, r) => BeginStepV::Finished(
                u@,
                match r {
                    Ok(b) => Ok(b.upload_id@),
                    Err(e) => Err(e@),
                },
            ),
        }
    }
}

pub open spec fn finish_err(m: AttachBeginV, e: Seq<char>) -> BeginStepV {
    BeginStepV::Finished(m.uploads, Err(e))
}

/// Remove the upload's directory, if it has one, then fail with `e`.
pub open spec fn unwind_dir(m: AttachBeginV, e: Seq<char>) -> BeginStepV {
    match m.cleanup_dir {
        Some(d) => BeginStepV::Ask(
            AttachBeginV { phase: BeginPhase::CleanDir, error: e, ..m },
            FsRequestV::RemoveDir(d),
        ),
        None => finish_err(m, e),
    }
}

/// Remove the temporary file, then the upload's directory, then fail.
pub open spec fn unwind_file(m: AttachBeginV, e: Seq<char>) -> BeginStepV {
    BeginStepV::Ask(
        AttachBeginV { phase: BeginPhase::CleanFile, error: e, ..m },
        FsRequestV::RemoveFile(m.temporary_path),
    )
}

/// The spelling of a legacy upload's file: `<id>.<ext>`.
pub open spec fn legacy_target_name(id: Seq<char>, x: Seq<char>) -> Seq<char> {
    id + "."@ + x
}

/// The spelling of a legacy upload's temporary file: `.<id>.upload.<ext>`.
pub open spec fn legacy_temp_name(id: Seq<char>, x: Seq<char>) -> Seq<char> {
    "."@ + id + ".upload."@ + x
}

/// Try a fresh id `id`, or give up after four tries.
pub open spec fn attempt_spec(m: AttachBeginV, id: Seq<char>) -> BeginStepV {
    if m.attempts >= 4 {
        finish_err(m, "attachment_create_failed"@)
    } else {
        let m1 = AttachBeginV { attempts: (m.attempts + 1) as u64, upload_id: id, cleanup_dir: None, ..m };
        match m.legacy_extension {
            Some(x) => {
                let temp = join_spec(m.session_dir, legacy_temp_name(id, x));
                BeginStepV::Ask(
                    AttachBeginV {
                        phase: BeginPhase::TempMade,
                        parent_dir: m.session_dir,
                        target_path: join_spec(m.session_dir, legacy_target_name(id, x)),
                        temporary_path: temp,
                        ..m1
                    },
                    FsRequestV::MakeNewFile(temp),
                )
            },
            None => {
                let d = join_spec(m.session_dir, id);
                BeginStepV::Ask(
                    AttachBeginV { phase: BeginPhase::UploadDirMade, parent_dir: d, ..m1 },
                    FsRequestV::MakeDir(d),
                )
            },
        }
    }
}

/// The upload as it is recorded once its temporary file is ready.
pub open spec fn pending_spec(m: AttachBeginV) -> PendingV {
    PendingV {
        cache_root: m.cache_root,
        parent_dir: m.parent_dir,
        temporary_path: m.temporary_path,
        target_path: m.target_path,
        cleanup_dir: m.cleanup_dir,
        expected_size: m.size_bytes,
        written: 0,
        expected_sha256: m.expected_sha256,
        fed: Seq::empty(),
        validate_image: m.kind is LegacyImage,
    }
}

/// Record the new upload; refused only when 16 others are in progress.
pub open spec fn register_spec(m: AttachBeginV) -> BeginStepV {
    if m.uploads.contains_key(m.upload_id) || m.uploads.dom().len() < MAX_ACTIVE_ATTACHMENT_UPLOADS {
        BeginStepV::Finished(m.uploads.insert(m.upload_id, pending_spec(m)), Ok(m.upload_id))
    } else {
        unwind_file(m, "attachment_upload_limit_reached"@)
    }
}

/// Whether the step from `m` on reply `r` tries a fresh id.
pub open spec fn uses_fresh_id(m: AttachBeginV, r: FsReplyV) -> bool {
    match m.phase {
        BeginPhase::SessionCanon => reply_path(r) matches Some(c) && within(c, m.cache_root),
        BeginPhase::UploadDirMade => reply_made(r) is Exists,
        BeginPhase::TempMade => reply_made(r) is Exists && m.cleanup_dir is None,
        BeginPhase::RetryAfterRemove => true,
        _ => false,
    }
}

/// One step of a starting upload: what it does with the reply `r` to its
/// last request, `id` being the fresh id it tries if it tries one.
pub open spec fn begin_step_spec(m: AttachBeginV, r: FsReplyV, id: Seq<char>) -> BeginStepV {
    match m.phase {
        BeginPhase::RootMade => if !reply_done(r) {
            finish_err(m, "attachment_cache_create_failed"@)
        } else {
            BeginStepV::Ask(AttachBeginV { phase: BeginPhase::RootMeta, ..m }, FsRequestV::SymlinkMetadata(m.root))
        },
        BeginPhase::RootMeta => match reply_meta(r) {
            MetaReply::Found(f) => if f.is_symlink || !f.is_dir {
                finish_err(m, "attachment_cache_invalid"@)
            } else {
                BeginStepV::Ask(AttachBeginV { phase: BeginPhase::RootPerm, ..m }, FsRequestV::SetPrivateDir(m.root))
            },
            _ => finish_err(m, "attachment_cache_unavailable"@),
        },
        BeginPhase::RootPerm => if !reply_done(r) {
            finish_err(m, "attachment_permissions_failed"@)
        } else {
            BeginStepV::Ask(AttachBeginV { phase: BeginPhase::RootCanon, ..m }, FsRequestV::Canonicalize(m.root))
        },
        BeginPhase::RootCanon => match reply_path(r) {
            None => finish_err(m, "attachment_cache_unavailable"@),
            Some(c) => BeginStepV::Ask(
                AttachBeginV { phase: BeginPhase::Swept, cache_root: c, ..m },
                FsRequestV::SweepCache(c),
            ),
        },
        BeginPhase::Swept => if !reply_done(r) {
            finish_err(m, "attachment_cleanup_failed"@)
        } else {
            let p = join_spec(m.cache_root, m.session_id);
            BeginStepV::Ask(
                AttachBeginV { phase: BeginPhase::SessionMeta, session_dir: p, ..m },
                FsRequestV::SymlinkMetadata(p),
            )
        },
        BeginPhase::SessionMeta => match reply_meta(r) {
            MetaReply::Found(f) => if f.is_symlink || !f.is_dir {
                finish_err(m, "attachment_cache_invalid"@)
            } else {
                BeginStepV::Ask(
                    AttachBeginV { phase: BeginPhase::SessionPerm, ..m },
                    FsRequestV::SetPrivateDir(m.session_dir),
                )
            },
            MetaReply::Missing => BeginStepV::Ask(
                AttachBeginV { phase: BeginPhase::SessionMade, ..m },
                FsRequestV::CreateDir(m.session_dir),
            ),
            MetaReply::Failed => finish_err(m, "attachment_cache_unavailable"@),
        },
        BeginPhase::SessionMade => if !reply_done(r) {
            finish_err(m, "attachment_cache_create_failed"@)
        } else {
            BeginStepV::Ask(
                AttachBeginV { phase: BeginPhase::SessionPerm, ..m },
                FsRequestV::SetPrivateDir(m.session_dir),
            )
        },
        BeginPhase::SessionPerm => if !reply_done(r) {
            finish_err(m, "attachment_permissions_failed"@)
        } else {
            BeginStepV::Ask(
                AttachBeginV { phase: BeginPhase::SessionCanon, ..m },
                FsRequestV::Canonicalize(m.session_dir),
            )
        },
        BeginPhase::SessionCanon => match reply_path(r) {
            None => finish_err(m, "attachment_cache_unavailable"@),
            Some(c) => if !within(c, m.cache_root) {
                finish_err(m, "attachment_cache_invalid"@)
            } else {
                attempt_spec(AttachBeginV { session_dir: c, ..m }, id)
            },
        },
        BeginPhase::UploadDirMade => match reply_made(r) {
            MakeReply::Made => BeginStepV::Ask(
                AttachBeginV { phase: BeginPhase::UploadDirPerm, cleanup_dir: Some(m.parent_dir), ..m },
                FsRequestV::SetPrivateDir(m.parent_dir),
            ),
            MakeReply::Exists => attempt_spec(m, id),
            MakeReply::Failed => finish_err(m, "attachment_cache_create_failed"@),
        },
        BeginPhase::UploadDirPerm => if !reply_done(r) {
            unwind_dir(m, "attachment_permissions_failed"@)
        } else {
            BeginStepV::Ask(
                AttachBeginV { phase: BeginPhase::UploadDirCanon, ..m },
                FsRequestV::Canonicalize(m.parent_dir),
            )
        },
        BeginPhase::UploadDirCanon => match reply_path(r) {
            Some(c) => if within(c, m.session_dir) {
                let temp = join_spec(c, ".upload"@);
                BeginStepV::Ask(
                    AttachBeginV {
                        phase: BeginPhase::TempMade,
                        parent_dir: c,
                        target_path: join_spec(c, m.file_name),
                        temporary_path: temp,
                        cleanup_dir: Some(c),
                        ..m
                    },
                    FsRequestV::MakeNewFile(temp),
                )
            } else {
                unwind_dir(m, "attachment_cache_invalid"@)
            },
            None => unwind_dir(m, "attachment_cache_invalid"@),
        },
        BeginPhase::TempMade => match reply_made(r) {
            MakeReply::Made => BeginStepV::Ask(
                AttachBeginV { phase: BeginPhase::TempPerm, ..m },
                FsRequestV::SetPrivateFile(m.temporary_path),
            ),
            MakeReply::Exists => match m.cleanup_dir {
                Some(d) => BeginStepV::Ask(
                    AttachBeginV { phase: BeginPhase::RetryAfterRemove, ..m },
                    FsRequestV::RemoveDir(d),
                ),
                None => attempt_spec(m, id),
            },
            MakeReply::Failed => unwind_dir(m, "attachment_create_failed"@),
        },
        BeginPhase::TempPerm => if !reply_done(r) {
            unwind_file(m, "attachment_permissions_failed"@)
        } else {
            register_spec(m)
        },
        BeginPhase::RetryAfterRemove => attempt_spec(AttachBeginV { cleanup_dir: None, ..m }, id),
        BeginPhase::CleanFile => unwind_dir(m, m.error),
        BeginPhase::CleanDir => finish_err(m, m.error),
    }
}

/// How an upload starts: the checks on the request, then the creation of
/// the cache root.
pub open spec fn begin_start_spec(
    uploads: Map<Seq<char>, PendingV>,
    session_id: Seq<char>,
    file_name: Seq<char>,
    size: u64,
    sha: Seq<char>,
    root: Seq<char>,
    kind: AttachmentKind,
) -> BeginStepV {
    match begin_check_spec(uploads.dom().len(), session_id, file_name, size, sha, kind) {
        Err(e) => BeginStepV::Finished(uploads, Err(e)),
        Ok((x, digest)) => BeginStepV::Ask(
            AttachBeginV {
                uploads,
                session_id,
                file_name,
                size_bytes: size,
                kind,
                legacy_extension: x,
                expected_sha256: digest,
                phase: BeginPhase::RootMade,
                root,
                cache_root: Seq::empty(),
                session_dir: Seq::empty(),
                attempts: 0,
                upload_id: Seq::empty(),
                parent_dir: Seq::empty(),
                target_path: Seq::empty(),
                temporary_path: Seq::empty(),
                cleanup_dir: None,
                error: Seq::empty(),
            },
            FsRequestV::CreateDirAll(root),
        ),
    }
}

fn finished_err(m: AttachBegin, e: &str) -> (r: BeginStep)
    ensures
        r@ == finish_err(m@, e@),
{
    BeginStep::Finished(m.uploads, Err(String::from_str(e)))
}

fn opt_copy(o: &Option<String>) -> (r: Option<String>)
    ensures
        opt_view(r) == opt_view(*o),
{
    match o {
        Some(s) => Some(copy_string(s.as_str())),
        None => None,
    }
}

impl AttachBegin {
    fn ask(self, phase: BeginPhase, q: FsRequest) -> (r: BeginStep)
        ensures
            r@ == BeginStepV::Ask(AttachBeginV { phase, ..self@ }, q@),
    {
        BeginStep::Ask(AttachBegin { phase, ..self }, q)
    }

    fn unwind_dir(self, e: &str) -> (r: BeginStep)
        ensures
            r@ == unwind_dir(self@, e@),
    {
        match opt_copy(&self.cleanup_dir) {
            Some(d) => BeginStep::Ask(
                AttachBegin { phase: BeginPhase::CleanDir, error: String::from_str(e), ..self },
                FsRequest::RemoveDir(d),
            ),
            None => finished_err(self, e),
        }
    }

    fn unwind_file(self, e: &str) -> (r: BeginStep)
        ensures
            r@ == unwind_file(self@, e@),
    {
        let t = copy_string(self.temporary_path.as_str());
        BeginStep::Ask(
            AttachBegin { phase: BeginPhase::CleanFile, error: String::from_str(e), ..self },
            FsRequest::RemoveFile(t),
        )
    }

    /// Tries the fresh id `id` (see `attempt_spec`).
    pub fn attempt_with(self, id: String) -> (r: BeginStep)
        ensures
            r@ == attempt_spec(self@, id@),
    {
        if self.attempts >= 4 {
            return finished_err(self, "attachment_create_failed");
        }
        let attempts = self.attempts + 1;
        match opt_copy(&self.legacy_extension) {
            Some(x) => {
                let name = concat(concat(id.as_str(), ".").as_str(), x.as_str());
                let tname = concat(concat(concat(".", id.as_str()).as_str(), ".upload.").as_str(), x.as_str());
                let target = join(self.session_dir.as_str(), name.as_str());
                let temp = join(self.session_dir.as_str(), tname.as_str());
                let q = copy_string(temp.as_str());
                let parent = copy_string(self.session_dir.as_str());
                BeginStep::Ask(
                    AttachBegin {
                        phase: BeginPhase::TempMade,
                        attempts,
                        upload_id: id,
                        cleanup_dir: None,
                        parent_dir: parent,
                        target_path: target,
                        temporary_path: temp,
                        ..self
                    },
                    FsRequest::MakeNewFile(q),
                )
            },
            None => {
                let d = join(self.session_dir.as_str(), id.as_str());
                let q = copy_string(d.as_str());
                BeginStep::Ask(
                    AttachBegin {
                        phase: BeginPhase::UploadDirMade,
                        attempts,
                        upload_id: id,
                        cleanup_dir: None,
                        parent_dir: d,
                        ..self
                    },
                    FsRequest::MakeDir(q),
                )
            },
        }
    }

    fn register(self) -> (r: BeginStep)
        ensures
            r@ == register_spec(self@),
    {
        let mut uploads = self.uploads;
        let p = PendingFileAttachment {
            upload_id: copy_string(self.upload_id.as_str()),
            cache_root: copy_string(self.cache_root.as_str()),
            parent_dir: copy_string(self.parent_dir.as_str()),
            temporary_path: copy_string(self.temporary_path.as_str()),
            target_path: copy_string(self.target_path.as_str()),
            cleanup_dir: opt_copy(&self.cleanup_dir),
            expected_size: self.size_bytes,
            written: 0,
            expected_sha256: copy_string(self.expected_sha256.as_str()),
            hasher: sha256_new(),
            validate_image: match self.kind {
                AttachmentKind::LegacyImage => true,
                AttachmentKind::AnyFile => false,
            },
        };
        proof {
            assert(p@ =~= pending_spec(self@));
        }
        if uploads.insert_pending(p) {
            let id = copy_string(self.upload_id.as_str());
            BeginStep::Finished(uploads, Ok(FileAttachBeginResult { upload_id: id }))
        } else {
            let m = AttachBegin { uploads, ..self };
            m.unwind_file("attachment_upload_limit_reached")
        }
    }

    /// One step with the reply to the last request, trying the fresh id
    /// `id` where the step tries one (see `begin_step_spec`).
    pub fn resume_with(self, reply: FsReply, id: String) -> (r: BeginStep)
        ensures
            r@ == begin_step_spec(self@, reply@, id@),
    {
        match self.phase {
            BeginPhase::RootMade => {
                if !take_done(&reply) {
                    return finished_err(self, "attachment_cache_create_failed");
                }
                let q = copy_string(self.root.as_str());
                self.ask(BeginPhase::RootMeta, FsRequest::SymlinkMetadata(q))
            },
            BeginPhase::RootMeta => match take_meta(&reply) {
                MetaReply::Found(f) => {
                    if f.is_symlink || !f.is_dir {
                        return finished_err(self, "attachment_cache_invalid");
                    }
                    let q = copy_string(self.root.as_str());
                    self.ask(BeginPhase::RootPerm, FsRequest::SetPrivateDir(q))
                },
                _ => finished_err(self, "attachment_cache_unavailable"),
            },
            BeginPhase::RootPerm => {
                if !take_done(&reply) {
                    return finished_err(self, "attachment_permissions_failed");
                }
                let q = copy_string(self.root.as_str());
                self.ask(BeginPhase::RootCanon, FsRequest::Canonicalize(q))
            },
            BeginPhase::RootCanon => match take_path(reply) {
                None => finished_err(self, "attachment_cache_unavailable"),
                Some(c) => {
                    let q = copy_string(c.as_str());
                    BeginStep::Ask(
                        AttachBegin { phase: BeginPhase::Swept, cache_root: c, ..self },
                        FsRequest::SweepCache(q),
                    )
                },
            },
            BeginPhase::Swept => {
                if !take_done(&reply) {
                    return finished_err(self, "attachment_cleanup_failed");
                }
                let p = join(self.cache_root.as_str(), self.session_id.as_str());
                let q = copy_string(p.as_str());
                BeginStep::Ask(
                    AttachBegin { phase: BeginPhase::SessionMeta, session_dir: p, ..self },
                    FsRequest::SymlinkMetadata(q),
                )
            },
            BeginPhase::SessionMeta => match take_meta(&reply) {
                MetaReply::Found(f) => {
                    if f.is_symlink || !f.is_dir {
                        return finished_err(self, "attachment_cache_invalid");
                    }
                    let q = copy_string(self.session_dir.as_str());
                    self.ask(BeginPhase::SessionPerm, FsRequest::SetPrivateDir(q))
                },
                MetaReply::Missing => {
                    let q = copy_string(self.session_dir.as_str());
                    self.ask(BeginPhase::SessionMade, FsRequest::CreateDir(q))
                },
                MetaReply::Failed => finished_err(self, "attachment_cache_unavailable"),
            },
            BeginPhase::SessionMade => {
                if !take_done(&reply) {
                    return finished_err(self, "attachment_cache_create_failed");
                }
                let q = copy_string(self.session_dir.as_str());
                self.ask(BeginPhase::SessionPerm, FsRequest::SetPrivateDir(q))
            },
            BeginPhase::SessionPerm => {
                if !take_done(&reply) {
                    return finished_err(self, "attachment_permissions_failed");
                }
                let q = copy_string(self.session_dir.as_str());
                self.ask(BeginPhase::SessionCanon, FsRequest::Canonicalize(q))
            },
            BeginPhase::SessionCanon => match take_path(reply) {
                None => finished_err(self, "attachment_cache_unavailable"),
                Some(c) => {
                    if !path_within(c.as_str(), self.cache_root.as_str()) {
                        return finished_err(self, "attachment_cache_invalid");
                    }
                    AttachBegin { session_dir: c, ..self }.attempt_with(id)
                },
            },
            BeginPhase::UploadDirMade => match take_made(&reply) {
                MakeReply::Made => {
                    let d = copy_string(self.parent_dir.as_str());
                    let q = copy_string(self.parent_dir.as_str());
                    BeginStep::Ask(
                        AttachBegin { phase: BeginPhase::UploadDirPerm, cleanup_dir: Some(d), ..self },
                        FsRequest::SetPrivateDir(q),
                    )
                },
                MakeReply::Exists => self.attempt_with(id),
                MakeReply::Failed => finished_err(self, "attachment_cache_create_failed"),
            },
            BeginPhase::UploadDirPerm => {
                if !take_done(&reply) {
                    return self.unwind_dir("attachment_permissions_failed");
                }
                let q = copy_string(self.parent_dir.as_str());
                self.ask(BeginPhase::UploadDirCanon, FsRequest::Canonicalize(q))
            },
            BeginPhase::UploadDirCanon => match take_path(reply) {
                Some(c) => {
                    if !path_within(c.as_str(), self.session_dir.as_str()) {
                        return self.unwind_dir("attachment_cache_invalid");
                    }
                    let temp = join(c.as_str(), ".upload");
                    let target = join(c.as_str(), self.file_name.as_str());
                    let q = copy_string(temp.as_str());
                    let d = copy_string(c.as_str());
                    BeginStep::Ask(
                        AttachBegin {
                            phase: BeginPhase::TempMade,
                            parent_dir: c,
                            target_path: target,
                            temporary_path: temp,
                            cleanup_dir: Some(d),
                            ..self
                        },
                        FsRequest::MakeNewFile(q),
                    )
                },
                None => self.unwind_dir("attachment_cache_invalid"),
            },
            BeginPhase::TempMade => match take_made(&reply) {
                MakeReply::Made => {
                    let q = copy_string(self.temporary_path.as_str());
                    self.ask(BeginPhase::TempPerm, FsRequest::SetPrivateFile(q))
                },
                MakeReply::Exists => match opt_copy(&self.cleanup_dir) {
                    Some(d) => self.ask(BeginPhase::RetryAfterRemove, FsRequest::RemoveDir(d)),
                    None => self.attempt_with(id),
                },
                MakeReply::Failed => self.unwind_dir("attachment_create_failed"),
            },
            BeginPhase::TempPerm => {
                if !take_done(&reply) {
                    return self.unwind_file("attachment_permissions_failed");
                }
                self.register()
            },
            BeginPhase::RetryAfterRemove => AttachBegin { cleanup_dir: None, ..self }.attempt_with(id),
            BeginPhase::CleanFile => {
                let e = copy_string(self.error.as_str());
                match opt_copy(&self.cleanup_dir) {
                    Some(d) => BeginStep::Ask(
                        AttachBegin { phase: BeginPhase::CleanDir, error: e, ..self },
                        FsRequest::RemoveDir(d),
                    ),
                    None => BeginStep::Finished(self.uploads, Err(e)),
                }
            },
            BeginPhase::CleanDir => BeginStep::Finished(self.uploads, Err(self.error)),
        }
    }

    fn needs_fresh_id(&self, reply: &FsReply) -> (b: bool)
        ensures
            b == uses_fresh_id(self@, reply@),
    {
        match self.phase {
            BeginPhase::SessionCanon => match reply {
                FsReply::Path(Some(c)) => path_within(c.as_str(), self.cache_root.as_str()),
                _ => false,
            },
            BeginPhase::UploadDirMade => match take_made(reply) {
                MakeReply::Exists => true,
                _ => false,
            },
            BeginPhase::TempMade => match take_made(reply) {
                MakeReply::Exists => self.cleanup_dir.is_none(),
                _ => false,
            },
            BeginPhase::RetryAfterRemove => true,
            _ => false,
        }
    }

    /// One step with the reply to the last request. Where the step tries an
    /// id, the id is a fresh random UUID; everything else is fixed by the
    /// reply (see `begin_step_spec`).
    pub fn resume(self, reply: FsReply) -> (r: BeginStep)
        ensures
            exists|id: Seq<char>|
                (uses_fresh_id(self@, reply@) ==> upload_id_shape(id)) && r@ == #[trigger] begin_step_spec(
                    self@,
                    reply@,
                    id,
                ),
    {
        let id = if self.needs_fresh_id(&reply) {
            new_upload_id()
        } else {
            String::new()
        };
        let ghost m = self@;
        let ghost rv = reply@;
        let ghost idv = id@;
        let r = self.resume_with(reply, id);
        proof {
            assert((uses_fresh_id(m, rv) ==> upload_id_shape(idv)) && r@ == begin_step_spec(m, rv, idv));
        }
        r
    }
}

impl FileAttachmentUploads {
    /// Starts an upload of the given kind in the cache under `root`: the
    /// checks on the request, then the first request on the way to its
    /// temporary file (see `begin_start_spec`).
    pub fn begin_in_root(self, request: FileAttachBeginRequest, root: String, kind: AttachmentKind) -> (r: BeginStep)
        ensures
            r@ == begin_start_spec(
                self@,
                request.session_id@,
                request.file_name@,
                request.size_bytes,
                request.sha256@,
                root@,
                kind,
            ),
    {
        if self.len() >= MAX_ACTIVE_ATTACHMENT_UPLOADS {
            return BeginStep::Finished(self, Err(String::from_str("attachment_upload_limit_reached")));
        }
        if let Err(e) = validate_attachment_session_id(request.session_id.as_str()) {
            return BeginStep::Finished(self, Err(e));
        }
        if request.size_bytes == 0 {
            return BeginStep::Finished(self, Err(String::from_str("attachment_empty")));
        }
        let max_bytes = match kind {
            AttachmentKind::LegacyImage => MAX_LEGACY_IMAGE_ATTACHMENT_BYTES,
            AttachmentKind::AnyFile => MAX_ATTACHMENT_BYTES,
        };
        if request.size_bytes > max_bytes {
            return BeginStep::Finished(self, Err(String::from_str("attachment_too_large")));
        }
        if let Err(e) = validate_attachment_name(request.file_name.as_str()) {
            return BeginStep::Finished(self, Err(e));
        }
        let legacy_extension = match kind {
            AttachmentKind::LegacyImage => match attachment_extension(request.file_name.as_str()) {
                Ok(x) => Some(x),
                Err(e) => return BeginStep::Finished(self, Err(e)),
            },
            AttachmentKind::AnyFile => None,
        };
        let expected_sha256 = match normalize_sha256(request.sha256.as_str()) {
            Ok(d) => d,
            Err(e) => return BeginStep::Finished(self, Err(e)),
        };
        let q = copy_string(root.as_str());
        let m = AttachBegin {
            uploads: self,
            session_id: request.session_id,
            file_name: request.file_name,
            size_bytes: request.size_bytes,
            kind,
            legacy_extension,
            expected_sha256,
            phase: BeginPhase::RootMade,
            root,
            cache_root: String::new(),
            session_dir: String::new(),
            attempts: 0,
            upload_id: String::new(),
            parent_dir: String::new(),
            target_path: String::new(),
            temporary_path: String::new(),
            cleanup_dir: None,
            error: String::new(),
        };
        BeginStep::Ask(m, FsRequest::CreateDirAll(q))
    }

    /// `begin_in_root` for a legacy image upload.
    pub fn begin(self, request: FileAttachBeginRequest, root: String) -> (r: BeginStep)
        ensures
            r@ == begin_start_spec(
                self@,
                request.session_id@,
                request.file_name@,
                request.size_bytes,
                request.sha256@,
                root@,
                AttachmentKind::LegacyImage,
            ),
    {
        self.begin_in_root(request, root, AttachmentKind::LegacyImage)
    }

    /// `begin_in_root` for an upload of any file.
    pub fn begin_any(self, request: FileAttachBeginRequest, root: String) -> (r: BeginStep)
        ensures
            r@ == begin_start_spec(
                self@,
                request.session_id@,
                request.file_name@,
                request.size_bytes,
                request.sha256@,
                root@,
                AttachmentKind::AnyFile,
            ),
    {
        self.begin_in_root(request, root, AttachmentKind::AnyFile)
    }
}


/// `a` within `b` within `c` is `a` within `c`, for canonical spellings.
pub proof fn lemma_within_trans(a: Seq<char>, b: Seq<char>, c: Seq<char>)
    requires
        within(a, b),
        within(b, c),
        canonical_spelling(b),
        canonical_spelling(c),
    ensures
        within(a, c),
{
    if c == seq!['/'] {
        if b == seq!['/'] {
        } else if a == b {
        } else {
            assert(a.take(b.len() as int)[0] == a[0]);
        }
    } else if b == c {
    } else {
        assert(b.len() > c.len());
        if b == seq!['/'] {
            assert(b.len() == 1);
        }
        if a != b {
            assert(a.take(b.len() as int) == b);
            assert(a.take(c.len() as int) =~= b.take(c.len() as int));
            assert(a[c.len() as int] == a.take(b.len() as int)[c.len() as int]);
        }
    }
}

proof fn lemma_id_plain(id: Seq<char>)
    requires
        upload_id_shape(id),
    ensures
        plain_name(id),
        forall|i: int| 0 <= i < id.len() ==> #[trigger] id[i] != '/',
{
    assert forall|i: int| 0 <= i < id.len() implies #[trigger] id[i] != '/' by {
        assert(0 <= i < 36);
    }
    assert(!id.contains('/'));
    reveal_strlit(".");
    reveal_strlit("..");
}

proof fn lemma_legacy_names_plain(id: Seq<char>, x: Seq<char>)
    requires
        upload_id_shape(id),
        legacy_image_extension(x),
    ensures
        plain_name(legacy_target_name(id, x)),
        plain_name(legacy_temp_name(id, x)),
{
    lemma_id_plain(id);
    reveal_strlit(".");
    reveal_strlit("..");
    reveal_strlit(".upload.");
    reveal_strlit("png");
    reveal_strlit("jpg");
    reveal_strlit("jpeg");
    reveal_strlit("gif");
    reveal_strlit("webp");
    reveal_strlit("bmp");
    assert(!x.contains('/'));
    let t = legacy_target_name(id, x);
    assert(!t.contains('/')) by {
        if t.contains('/') {
            let i = choose|i: int| 0 <= i < t.len() && t[i] == '/';
            if i < id.len() {
                assert(t[i] == id[i]);
            } else if i == id.len() {
            } else {
                assert(t[i] == x[i - id.len() - 1]);
                assert(x.contains('/'));
            }
        }
    }
    assert(t.len() >= 36);
    let u = legacy_temp_name(id, x);
    assert(!u.contains('/')) by {
        if u.contains('/') {
            let i = choose|i: int| 0 <= i < u.len() && u[i] == '/';
            if i == 0 {
            } else if i < 1 + id.len() {
                assert(u[i] == id[i - 1]);
            } else if i < 1 + id.len() + 8 {
                assert(u[i] == ".upload."@[i - 1 - id.len()]);
            } else {
                assert(u[i] == x[i - 1 - id.len() - 8]);
                assert(x.contains('/'));
            }
        }
    }
    assert(u.len() >= 36);
}

/// The phases in which a starting upload works inside its session
/// directory.
pub open spec fn in_session(ph: BeginPhase) -> bool {
    ph is UploadDirMade || ph is UploadDirPerm || ph is UploadDirCanon || ph is TempMade || ph is TempPerm
        || ph is RetryAfterRemove || ph is CleanFile || ph is CleanDir
}

/// What holds of a starting upload once its session directory is resolved:
/// the session directory lies inside the cache root, and its upload
/// directory, temporary file and target lie inside the session directory.
pub open spec fn begin_paths_inv(m: AttachBeginV) -> bool {
    &&& attachment_name_ok(m.file_name)
    &&& (m.legacy_extension matches Some(x) ==> legacy_image_extension(x))
    &&& (m.phase is Swept || m.phase is SessionMeta || m.phase is SessionMade || m.phase is SessionPerm
        || m.phase is SessionCanon) ==> canonical_spelling(m.cache_root)
    &&& in_session(m.phase) ==> {
        &&& canonical_spelling(m.cache_root)
        &&& canonical_spelling(m.session_dir)
        &&& within(m.session_dir, m.cache_root)
        &&& within(m.parent_dir, m.session_dir)
        &&& (m.cleanup_dir matches Some(d) ==> within(d, m.session_dir))
        &&& (m.phase is TempMade || m.phase is TempPerm || m.phase is CleanFile) ==> within(
            m.temporary_path,
            m.session_dir,
        ) && within(m.target_path, m.session_dir)
    }
}

/// The path a request creates, makes private or removes, if it does.
pub open spec fn changed_path(q: FsRequestV) -> Option<Seq<char>> {
    match q {
        FsRequestV::MakeDir(p) => Some(p),
        FsRequestV::MakeNewFile(p) => Some(p),
        FsRequestV::SetPrivateDir(p) => Some(p),
        FsRequestV::SetPrivateFile(p) => Some(p),
        FsRequestV::RemoveDir(p) => Some(p),
        FsRequestV::RemoveFile(p) => Some(p),
        FsRequestV::CreateDir(p) => Some(p),
        _ => None,
    }
}

/// The step results that keep a starting upload inside its session
/// directory.
pub open spec fn begin_step_confined(s: BeginStepV) -> bool {
    &&& s matches BeginStepV::Ask(m2, q) ==> begin_paths_inv(m2) && (in_session(m2.phase) ==> (changed_path(q) matches Some(p)
        ==> within(p, m2.session_dir)))
    &&& s matches BeginStepV::Finished(u, Ok(id)) ==> u.contains_key(id)
}

proof fn lemma_attempt_confined(m: AttachBeginV, id: Seq<char>)
    requires
        attachment_name_ok(m.file_name),
        m.legacy_extension matches Some(x) ==> legacy_image_extension(x),
        canonical_spelling(m.cache_root),
        canonical_spelling(m.session_dir),
        within(m.session_dir, m.cache_root),
        upload_id_shape(id),
    ensures
        begin_step_confined(attempt_spec(m, id)),
{
    if m.attempts < 4 {
        lemma_id_plain(id);
        assert(within(m.session_dir, m.session_dir));
        match m.legacy_extension {
            Some(x) => {
                lemma_legacy_names_plain(id, x);
                lemma_join_within(m.session_dir, legacy_temp_name(id, x), m.session_dir);
                lemma_join_within(m.session_dir, legacy_target_name(id, x), m.session_dir);
            },
            None => {
                lemma_join_within(m.session_dir, id, m.session_dir);
            },
        }
    }
}

/// A starting upload stays inside its session directory: whatever the file
/// system answers (given that it spells canonical paths canonically), and
/// whatever fresh UUID it is given, once the session directory is resolved
/// it lies inside the cache root, every directory or file the upload then
/// creates, makes private or removes lies inside that session directory,
/// and so do the temporary file and the target it records; and it starts so.
pub proof fn lemma_begin_confined(
    m: AttachBeginV,
    r: FsReplyV,
    id: Seq<char>,
    uploads: Map<Seq<char>, PendingV>,
    session_id: Seq<char>,
    file_name: Seq<char>,
    size: u64,
    sha: Seq<char>,
    root: Seq<char>,
    kind: AttachmentKind,
)
    ensures
        begin_step_confined(begin_start_spec(uploads, session_id, file_name, size, sha, root, kind)),
        begin_paths_inv(m) && reply_sound(r) && (uses_fresh_id(m, r) ==> upload_id_shape(id))
            ==> begin_step_confined(begin_step_spec(m, r, id)),
{
    if begin_check_spec(uploads.dom().len(), session_id, file_name, size, sha, kind) is Ok {
        if kind is LegacyImage {
            reveal_strlit("png");
            reveal_strlit("jpg");
            reveal_strlit("jpeg");
            reveal_strlit("gif");
            reveal_strlit("webp");
            reveal_strlit("bmp");
        }
    }
    if begin_paths_inv(m) && reply_sound(r) && (uses_fresh_id(m, r) ==> upload_id_shape(id)) {
        match m.phase {
            BeginPhase::SessionCanon => {
                if let Some(c) = reply_path(r) {
                    if within(c, m.cache_root) {
                        let m1 = AttachBeginV { session_dir: c, ..m };
                        lemma_attempt_confined(m1, id);
                    }
                }
            },
            BeginPhase::UploadDirMade => {
                if reply_made(r) is Exists {
                    lemma_attempt_confined(m, id);
                }
            },
            BeginPhase::UploadDirCanon => {
                if let Some(c) = reply_path(r) {
                    if within(c, m.session_dir) {
                        reveal_strlit(".upload");
                        reveal_strlit(".");
                        reveal_strlit("..");
                        assert(!".upload"@.contains('/'));
                        assert(within(c, c));
                        lemma_join_within(c, ".upload"@, c);
                        lemma_join_within(c, m.file_name, c);
                        lemma_within_trans(join_spec(c, ".upload"@), c, m.session_dir);
                        lemma_within_trans(join_spec(c, m.file_name), c, m.session_dir);
                    }
                }
            },
            BeginPhase::TempMade => {
                if reply_made(r) is Exists && m.cleanup_dir is None {
                    lemma_attempt_confined(m, id);
                }
            },
            BeginPhase::RetryAfterRemove => {
                lemma_attempt_confined(AttachBeginV { cleanup_dir: None, ..m }, id);
            },
            _ => {},
        }
    }
}

/// The phases in which a starting upload may own a directory or file to
/// remove if it fails.
pub open spec fn may_own_files(ph: BeginPhase) -> bool {
    ph is UploadDirPerm || ph is UploadDirCanon || ph is TempMade || ph is TempPerm || ph is RetryAfterRemove
        || ph is CleanFile || ph is CleanDir
}

/// What a starting upload owns on disk between its steps: nothing to
/// remove before it has made its upload directory.
pub open spec fn begin_owns_inv(m: AttachBeginV) -> bool {
    !may_own_files(m.phase) ==> m.cleanup_dir is None
}

/// A failed start leaves nothing of the upload behind: it fails only when
/// it owns no upload directory and no temporary file, or once their
/// removal was asked for; a temporary file it created is asked to be
/// removed before its directory.
pub proof fn lemma_begin_failure_cleans(
    m: AttachBeginV,
    r: FsReplyV,
    id: Seq<char>,
    uploads: Map<Seq<char>, PendingV>,
    session_id: Seq<char>,
    file_name: Seq<char>,
    size: u64,
    sha: Seq<char>,
    root: Seq<char>,
    kind: AttachmentKind,
)
    ensures
        begin_start_spec(uploads, session_id, file_name, size, sha, root, kind) matches BeginStepV::Ask(m2, _)
            ==> begin_owns_inv(m2),
        begin_owns_inv(m) ==> (begin_step_spec(m, r, id) matches BeginStepV::Ask(m2, _) ==> begin_owns_inv(m2)),
        begin_owns_inv(m) ==> (begin_step_spec(m, r, id) matches BeginStepV::Finished(_, Err(_)) ==> m.phase is CleanDir
            || m.phase is RetryAfterRemove || (m.cleanup_dir is None && !(m.phase is TempPerm))),
        begin_step_spec(m, r, id) matches BeginStepV::Ask(m2, q) ==> (m2.phase is CleanFile ==> q
            == FsRequestV::RemoveFile(m2.temporary_path) && m2.cleanup_dir == m.cleanup_dir),
{
    if begin_owns_inv(m) && !may_own_files(m.phase) {
        assert(m.cleanup_dir is None);
    }
}
} // verus!
