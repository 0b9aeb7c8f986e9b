//! Finishing an attachment upload: the checks on what was received, and the
//! rename that commits the temporary file under its final name.

use vstd::prelude::*;
use crate::file_manage::{find_last_slash, last_slash};
use crate::files::{FileAttachFinishRequest, FileAttachResult, MAX_IMAGE_PIXELS};
use crate::fsproto::{
    reply_dimensions, reply_done, reply_meta, reply_path, take_dimensions, take_done, take_meta,
    take_path, FsReply, FsReplyV, FsRequest, FsRequestV, MetaReply,
};
use crate::hashing::{sha256_finish_hex, sha256_hex};
use crate::paths::{path_within, within};
use crate::text::{chars_of, copy_string, same_text, string_of};
use crate::upload_begin::opt_view;
use crate::uploads::{FileAttachmentUploads, PendingFileAttachment, PendingV};

verus! {

/// `Path::parent` for spellings without trailing separators: the part
/// before the last `/` (`/` itself for a top-level entry), the empty path
/// for a bare name, and none for `/` and the empty path.
pub open spec fn parent_spec(p: Seq<char>) -> Option<Seq<char>> {
    match last_slash(p) {
        None => if p.len() == 0 {
            None
        } else {
            Some(Seq::empty())
        },
        Some(i) => if i == 0 {
            if p.len() == 1 {
                None
            } else {
                Some(seq!['/'])
            }
        } else {
            Some(p.take(i))
        },
    }
}

pub fn parent_path(p: &str) -> (r: Option<String>)
    ensures
        match parent_spec(p@) {
            Some(q) => r matches Some(s) && s@ == q,
            None => r is None,
        },
{
    let c = chars_of(p);
    match find_last_slash(&c) {
        None => {
            if c.len() == 0 {
                None
            } else {
                Some(String::new())
            }
        },
        Some(i) => {
            if i == 0 {
                if c.len() == 1 {
                    None
                } else {
                    let s = string_of(&c, 0, 1);
                    proof {
                        assert(s@ =~= seq!['/']);
                    }
                    Some(s)
                }
            } else {
                let s = string_of(&c, 0, i);
                proof {
                    assert(s@ =~= c@.take(i as int));
                }
                Some(s)
            }
        },
    }
}

/// Where a finishing upload stands: the reply it waits for.
#[derive(Clone, Copy)]
pub enum FinishPhase {
    /// The temporary file flushed and synced.
    Synced,
    /// The image's dimensions read (legacy uploads).
    Dimensions,
    /// The metadata of the target's parent directory.
    ParentMeta,
    /// The target's parent canonicalized.
    ParentCanon,
    /// Whether something already exists at the target.
    TargetProbe,
    /// The rename of the temporary file onto the target.
    Committed,
    /// The temporary file removed after a failure.
    CleanFile,
    /// The upload's directory removed after a failure.
    CleanDir,
}

/// An upload being finished; it has left the uploads in progress.
pub struct AttachFinish {
    pub cache_root: String,
    pub parent_dir: String,
    pub temporary_path: String,
    pub target_path: String,
    pub cleanup_dir: Option<String>,
    pub expected_size: u64,
    pub written: u64,
    pub expected_sha256: String,
    /// The hex digest of the bytes received.
    pub digest: String,
    pub validate_image: bool,
    pub phase: FinishPhase,
    /// The target's parent as it was spelled.
    pub parent: String,
    pub error: String,
}

pub struct AttachFinishV {
    pub cache_root: Seq<char>,
    pub parent_dir: Seq<char>,
    pub temporary_path: Seq<char>,
    pub target_path: Seq<char>,
    pub cleanup_dir: Option<Seq<char>>,
    pub expected_size: u64,
    pub written: u64,
    pub expected_sha256: Seq<char>,
    pub digest: Seq<char>,
    pub validate_image: bool,
    pub phase: FinishPhase,
    pub parent: Seq<char>,
    pub error: Seq<char>,
}

impl View for AttachFinish {
    type V = AttachFinishV;

    open spec fn view(&self) -> AttachFinishV {
        AttachFinishV {
            cache_root: self.cache_root@,
            parent_dir: self.parent_dir@,
            temporary_path: self.temporary_path@,
            target_path: self.target_path@,
            cleanup_dir: opt_view(self.cleanup_dir),
            expected_size: self.expected_size,
            written: self.written,
            expected_sha256: self.expected_sha256@,
            digest: self.digest@,
            validate_image: self.validate_image,
            phase: self.phase,
            parent: self.parent@,
            error: self.error@,
        }
    }
}

/// What a finishing upload does next: ask for a file-system request, or end
/// with the committed path and size, or the error.
pub enum FinishStep {
    Ask(AttachFinish, FsRequest),
    Finished(Result<FileAttachResult, String>),
}

pub enum FinishStepV {
    Ask(AttachFinishV, FsRequestV),
    Finished(Result<(Seq<char>, u64), Seq<char>>),
}

impl View for FinishStep {
    type V = FinishStepV;

    open spec fn view(&self) -> FinishStepV {
        match self {
            FinishStep::Ask(m, q) => FinishStepV::Ask(m@, q@),
            FinishStep::Finished(r) => FinishStepV::Finished(
                match r {
                    Ok(a) => Ok((a.path@, a.size_bytes)),
                    Err(e) => Err(e@),
                },
            ),
        }
    }
}

/// Remove the temporary file, then the upload's directory, then fail with `e`.
pub open spec fn clean_spec(m: AttachFinishV, e: Seq<char>) -> FinishStepV {
    FinishStepV::Ask(
        AttachFinishV { phase: FinishPhase::CleanFile, error: e, ..m },
        FsRequestV::RemoveFile(m.temporary_path),
    )
}

/// The checks on the target's parent begin.
pub open spec fn parent_step_spec(m: AttachFinishV) -> FinishStepV {
    match parent_spec(m.target_path) {
        None => clean_spec(m, "attachment_cache_invalid"@),
        Some(p) => FinishStepV::Ask(
            AttachFinishV { phase: FinishPhase::ParentMeta, parent: p, ..m },
            FsRequestV::SymlinkMetadata(p),
        ),
    }
}

/// How finishing starts for an upload taken out of the uploads in progress:
/// the size check, then the sync of its file; its digest is taken from
/// the bytes it was fed.
pub open spec fn finish_start_spec(p: PendingV) -> FinishStepV {
    let m = AttachFinishV {
        cache_root: p.cache_root,
        parent_dir: p.parent_dir,
        temporary_path: p.temporary_path,
        target_path: p.target_path,
        cleanup_dir: p.cleanup_dir,
        expected_size: p.expected_size,
        written: p.written,
        expected_sha256: p.expected_sha256,
        digest: sha256_hex(p.fed),
        validate_image: p.validate_image,
        phase: FinishPhase::Synced,
        parent: Seq::empty(),
        error: Seq::empty(),
    };
    if p.written != p.expected_size {
        clean_spec(m, "attachment_size_mismatch"@)
    } else {
        FinishStepV::Ask(m, FsRequestV::SyncUpload(p.temporary_path))
    }
}

/// One step of a finishing upload with the reply `r` to its last request.
pub open spec fn finish_step_spec(m: AttachFinishV, r: FsReplyV) -> FinishStepV {
    match m.phase {
        FinishPhase::Synced => if !reply_done(r) {
            clean_spec(m, "attachment_write_failed"@)
        } else if m.digest != m.expected_sha256 {
            clean_spec(m, "attachment_sha256_mismatch"@)
        } else if m.validate_image {
            FinishStepV::Ask(
                AttachFinishV { phase: FinishPhase::Dimensions, ..m },
                FsRequestV::ImageDimensions(m.temporary_path),
            )
        } else {
            parent_step_spec(m)
        },
        FinishPhase::Dimensions => match reply_dimensions(r) {
            None => clean_spec(m, "attachment_image_invalid"@),
            Some((w, h)) => if w * h > MAX_IMAGE_PIXELS {
                clean_spec(m, "image_dimensions_too_large"@)
            } else {
                parent_step_spec(m)
            },
        },
        FinishPhase::ParentMeta => match reply_meta(r) {
            MetaReply::Found(f) => if f.is_symlink || !f.is_dir {
                clean_spec(m, "attachment_cache_invalid"@)
            } else {
                FinishStepV::Ask(
                    AttachFinishV { phase: FinishPhase::ParentCanon, ..m },
                    FsRequestV::Canonicalize(m.parent),
                )
            },
            _ => clean_spec(m, "attachment_cache_unavailable"@),
        },
        FinishPhase::ParentCanon => match reply_path(r) {
            None => clean_spec(m, "attachment_cache_unavailable"@),
            Some(c) => if c != m.parent_dir || !within(c, m.cache_root) {
                clean_spec(m, "attachment_cache_invalid"@)
            } else {
                FinishStepV::Ask(
                    AttachFinishV { phase: FinishPhase::TargetProbe, ..m },
                    FsRequestV::SymlinkMetadata(m.target_path),
                )
            },
        },
        FinishPhase::TargetProbe => match reply_meta(r) {
            MetaReply::Found(_) => clean_spec(m, "attachment_target_exists"@),
            _ => FinishStepV::Ask(
                AttachFinishV { phase: FinishPhase::Committed, ..m },
                FsRequestV::Rename(m.temporary_path, m.target_path),
            ),
        },
        FinishPhase::Committed => if !reply_done(r) {
            clean_spec(m, "attachment_commit_failed"@)
        } else {
            FinishStepV::Finished(Ok((m.target_path, m.written)))
        },
        FinishPhase::CleanFile => match m.cleanup_dir {
            Some(d) => FinishStepV::Ask(
                AttachFinishV { phase: FinishPhase::CleanDir, ..m },
                FsRequestV::RemoveDir(d),
            ),
            None => FinishStepV::Finished(Err(m.error)),
        },
        FinishPhase::CleanDir => FinishStepV::Finished(Err(m.error)),
    }
}

fn opt_copy(o: &Option<String>) -> (r: Option<String>)
    ensures
        opt_view(r) == opt_view(*o),
{
    match o {
        Some(s) => Some(copy_string(s.as_str())),
        None => None,
    }
}

impl AttachFinish {
    fn clean(self, e: &str) -> (r: FinishStep)
        ensures
            r@ == clean_spec(self@, e@),
    {
        let t = copy_string(self.temporary_path.as_str());
        FinishStep::Ask(
            AttachFinish { phase: FinishPhase::CleanFile, error: String::from_str(e), ..self },
            FsRequest::RemoveFile(t),
        )
    }

    fn parent_step(self) -> (r: FinishStep)
        ensures
            r@ == parent_step_spec(self@),
    {
        match parent_path(self.target_path.as_str()) {
            None => self.clean("attachment_cache_invalid"),
            Some(p) => {
                let q = copy_string(p.as_str());
                FinishStep::Ask(
                    AttachFinish { phase: FinishPhase::ParentMeta, parent: p, ..self },
                    FsRequest::SymlinkMetadata(q),
                )
            },
        }
    }

    /// Starts finishing an upload taken out of the uploads in progress (see
    /// `finish_start_spec`).
    pub fn start(p: PendingFileAttachment) -> (r: FinishStep)
        ensures
            r@ == finish_start_spec(p@),
    {
        let digest = sha256_finish_hex(p.hasher);
        let m = AttachFinish {
            cache_root: p.cache_root,
            parent_dir: p.parent_dir,
            temporary_path: p.temporary_path,
            target_path: p.target_path,
            cleanup_dir: p.cleanup_dir,
            expected_size: p.expected_size,
            written: p.written,
            expected_sha256: p.expected_sha256,
            digest,
            validate_image: p.validate_image,
            phase: FinishPhase::Synced,
            parent: String::new(),
            error: String::new(),
        };
        if m.written != m.expected_size {
            return m.clean("attachment_size_mismatch");
        }
        let q = copy_string(m.temporary_path.as_str());
        FinishStep::Ask(m, FsRequest::SyncUpload(q))
    }

    /// One step with the reply to the last request (see `finish_step_spec`).
    pub fn resume(self, reply: FsReply) -> (r: FinishStep)
        ensures
            r@ == finish_step_spec(self@, reply@),
    {
        match self.phase {
            FinishPhase::Synced => {
                if !take_done(&reply) {
                    return self.clean("attachment_write_failed");
                }
                if !same_text(self.digest.as_str(), self.expected_sha256.as_str()) {
                    return self.clean("attachment_sha256_mismatch");
                }
                if self.validate_image {
                    let q = copy_string(self.temporary_path.as_str());
                    return FinishStep::Ask(
                        AttachFinish { phase: FinishPhase::Dimensions, ..self },
                        FsRequest::ImageDimensions(q),
                    );
                }
                self.parent_step()
            },
            FinishPhase::Dimensions => match take_dimensions(&reply) {
                None => self.clean("attachment_image_invalid"),
                Some((w, h)) => {
                    assert((w as int) * (h as int) <= 0xffff_ffff * 0xffff_ffff) by (nonlinear_arith)
                        requires
                            w <= 0xffff_ffff,
                            h <= 0xffff_ffff,
                    ;
                    if (w as u64) * (h as u64) > MAX_IMAGE_PIXELS {
                        return self.clean("image_dimensions_too_large");
                    }
                    self.parent_step()
                },
            },
            FinishPhase::ParentMeta => match take_meta(&reply) {
                MetaReply::Found(f) => {
                    if f.is_symlink || !f.is_dir {
                        return self.clean("attachment_cache_invalid");
                    }
                    let q = copy_string(self.parent.as_str());
                    FinishStep::Ask(
                        AttachFinish { phase: FinishPhase::ParentCanon, ..self },
                        FsRequest::Canonicalize(q),
                    )
                },
                _ => self.clean("attachment_cache_unavailable"),
            },
            FinishPhase::ParentCanon => match take_path(reply) {
                None => self.clean("attachment_cache_unavailable"),
                Some(c) => {
                    if !same_text(c.as_str(), self.parent_dir.as_str()) || !path_within(
                        c.as_str(),
                        self.cache_root.as_str(),
                    ) {
                        return self.clean("attachment_cache_invalid");
                    }
                    let q = copy_string(self.target_path.as_str());
                    FinishStep::Ask(
                        AttachFinish { phase: FinishPhase::TargetProbe, ..self },
                        FsRequest::SymlinkMetadata(q),
                    )
                },
            },
            FinishPhase::TargetProbe => match take_meta(&reply) {
                MetaReply::Found(_) => self.clean("attachment_target_exists"),
                _ => {
                    let a = copy_string(self.temporary_path.as_str());
                    let b = copy_string(self.target_path.as_str());
                    FinishStep::Ask(
                        AttachFinish { phase: FinishPhase::Committed, ..self },
                        FsRequest::Rename(a, b),
                    )
                },
            },
            FinishPhase::Committed => {
                if !take_done(&reply) {
                    return self.clean("attachment_commit_failed");
                }
                FinishStep::Finished(Ok(FileAttachResult { path: self.target_path, size_bytes: self.written }))
            },
            FinishPhase::CleanFile => match opt_copy(&self.cleanup_dir) {
                Some(d) => FinishStep::Ask(
                    AttachFinish { phase: FinishPhase::CleanDir, ..self },
                    FsRequest::RemoveDir(d),
                ),
                None => FinishStep::Finished(Err(self.error)),
            },
            FinishPhase::CleanDir => FinishStep::Finished(Err(self.error)),
        }
    }
}

impl FileAttachmentUploads {
    /// Finishes the named upload: it leaves the uploads in progress and its
    /// commit starts; `attachment_upload_not_found` when no upload has that
    /// id.
    pub fn finish(&mut self, request: &FileAttachFinishRequest) -> (r: FinishStep)
        ensures
            old(self)@.contains_key(request.upload_id@) ==> r@ == finish_start_spec(old(self)@[request.upload_id@])
                && final(self)@ == old(self)@.remove(request.upload_id@),
            !old(self)@.contains_key(request.upload_id@) ==> r@ == FinishStepV::Finished(
                Err("attachment_upload_not_found"@),
            ) && final(self)@ == old(self)@,
    {
        match self.take(request.upload_id.as_str()) {
            None => FinishStep::Finished(Err(String::from_str("attachment_upload_not_found"))),
            Some(p) => AttachFinish::start(p),
        }
    }
}

/// What holds between the steps of a finishing upload: past the sync, the
/// upload received exactly its declared size and its digest matched.
pub open spec fn finish_inv(m: AttachFinishV) -> bool {
    let past_sync = m.phase is Dimensions || m.phase is ParentMeta || m.phase is ParentCanon
        || m.phase is TargetProbe || m.phase is Committed;
    &&& (m.phase is Synced || past_sync) ==> m.written == m.expected_size
    &&& past_sync ==> m.digest == m.expected_sha256
}

/// An upload is committed only when it received exactly the size it
/// declared and the digest of the bytes it received is the one it declared:
/// the first step of finishing keeps the invariant, every step keeps it,
/// and a step that ends in success reports the target path and the
/// declared size.
pub proof fn lemma_finish_commits_only_verified(p: PendingV, m: AttachFinishV, r: FsReplyV)
    ensures
        finish_start_spec(p) matches FinishStepV::Ask(m2, _) ==> finish_inv(m2) && m2.digest
            == sha256_hex(p.fed) && m2.expected_sha256 == p.expected_sha256 && m2.expected_size
            == p.expected_size,
        finish_inv(m) ==> (finish_step_spec(m, r) matches FinishStepV::Ask(m2, _) ==> finish_inv(m2)
            && m2.digest == m.digest && m2.expected_sha256 == m.expected_sha256
            && m2.expected_size == m.expected_size && m2.target_path == m.target_path
            && m2.written == m.written),
        finish_inv(m) ==> (finish_step_spec(m, r) matches FinishStepV::Finished(Ok((path, n))) ==> n
            == m.expected_size && m.digest == m.expected_sha256 && path == m.target_path),
{
}


/// A failed finish leaves nothing behind: finishing never fails outright
/// once it has started; every failure first asks for the temporary file to
/// be removed and then, for an any-file upload, its directory; and the
/// error comes only after those requests.
pub proof fn lemma_finish_failure_cleans(p: PendingV, m: AttachFinishV, r: FsReplyV)
    ensures
        !(finish_start_spec(p) is Finished),
        finish_start_spec(p) matches FinishStepV::Ask(m2, q) ==> (m2.phase is CleanFile ==> q
            == FsRequestV::RemoveFile(m2.temporary_path)),
        finish_step_spec(m, r) matches FinishStepV::Ask(m2, q) ==> (m2.phase is CleanFile ==> q
            == FsRequestV::RemoveFile(m2.temporary_path) && m2.cleanup_dir == m.cleanup_dir),
        finish_step_spec(m, r) matches FinishStepV::Ask(m2, q) ==> (m2.phase is CleanDir ==> m.phase is CleanFile
            && m.cleanup_dir == Some(m2.cleanup_dir->0) && q == FsRequestV::RemoveDir(m2.cleanup_dir->0)),
        finish_step_spec(m, r) matches FinishStepV::Finished(Err(_)) ==> m.phase is CleanDir || (m.phase is CleanFile
            && m.cleanup_dir is None),
{
}
} // verus!
