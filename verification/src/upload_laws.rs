//! Laws over the life of an upload, stated over what the files on disk
//! hold: a new upload's temporary file starts empty, each accepted chunk
//! extends it by exactly its bytes, and finishing either moves exactly the
//! bytes sent to the target or adds no file at all.

use vstd::prelude::*;
use crate::disk::{disk_after, keeps_contents, write_at};
use crate::fsproto::{reply_done, FsReplyV, FsRequestV};
use crate::hashing::sha256_hex;
use crate::paths::join_spec;
use crate::upload_begin::{
    begin_start_spec, begin_step_spec, legacy_target_name, pending_spec, AttachBeginV, BeginPhase,
    BeginStepV,
};
use crate::upload_finish::{
    finish_inv, finish_start_spec, finish_step_spec, lemma_finish_commits_only_verified, lemma_finish_failure_cleans,
    AttachFinishV,
    FinishPhase, FinishStepV,
};
use crate::files::MAX_ACTIVE_ATTACHMENT_UPLOADS;
use crate::uploads::{chunk_check_spec, leftovers_of, pending_ok, AttachmentKind, PendingV};

verus! {

/// What a starting upload knows of its temporary file and its target
/// between two steps, `q` being the request it waits on: only a legacy
/// image has an extension and only an any-file upload makes a directory of
/// its own; it waits for the temporary file's creation, or the file it
/// created is still empty; an any-file upload's target keeps the file's
/// name in its own directory, and a legacy image's target is `<id>.<ext>`
/// in the session directory.
pub open spec fn begin_disk_inv(m: AttachBeginV, q: FsRequestV, disk: Map<Seq<char>, Seq<u8>>) -> bool {
    &&& (m.kind is LegacyImage) == (m.legacy_extension is Some)
    &&& (m.phase is UploadDirMade || m.phase is UploadDirPerm || m.phase is UploadDirCanon) ==> m.kind is AnyFile
    &&& m.phase is TempMade ==> q == FsRequestV::MakeNewFile(m.temporary_path)
    &&& m.phase is TempPerm ==> q == FsRequestV::SetPrivateFile(m.temporary_path) && disk.contains_key(
        m.temporary_path,
    ) && disk[m.temporary_path] == Seq::<u8>::empty()
    &&& (m.phase is TempMade || m.phase is TempPerm) ==> match m.kind {
        AttachmentKind::AnyFile => m.target_path == join_spec(m.parent_dir, m.file_name),
        AttachmentKind::LegacyImage => m.legacy_extension matches Some(x) && m.target_path == join_spec(
            m.session_dir,
            legacy_target_name(m.upload_id, x),
        ),
    }
}

/// One step of a starting upload keeps `begin_disk_inv` and what it was
/// asked to start.
pub open spec fn begin_step_keeps(m: AttachBeginV, q: FsRequestV, r: FsReplyV, id: Seq<char>, disk: Map<Seq<char>, Seq<u8>>) -> bool {
    begin_disk_inv(m, q, disk) ==> (begin_step_spec(m, r, id) matches BeginStepV::Ask(m2, q2)
            ==> begin_disk_inv(m2, q2, disk_after(disk, q, r)) && m2.kind == m.kind && m2.file_name
            == m.file_name && m2.size_bytes == m.size_bytes && m2.uploads == m.uploads
            && m2.expected_sha256 == m.expected_sha256)
}

/// A started upload is recorded with an empty temporary file: the start
/// sets out with `begin_disk_inv` and keeps it whatever the file system
/// answers and whatever id it tries, and a start that succeeds adds exactly
/// one upload to the
/// table, one that has received nothing, expects the declared size, checks
/// the image only for a legacy image, names its target as above, and whose
/// temporary file on disk holds the (no) bytes it has received.
#[verifier::spinoff_prover]
#[verifier::rlimit(50)]
pub proof fn lemma_begin_records_empty_upload(
    m: AttachBeginV,
    q: FsRequestV,
    r: FsReplyV,
    id: Seq<char>,
    disk: Map<Seq<char>, Seq<u8>>,
    uploads: Map<Seq<char>, PendingV>,
    session_id: Seq<char>,
    file_name: Seq<char>,
    size: u64,
    sha: Seq<char>,
    root: Seq<char>,
    kind: AttachmentKind,
)
    ensures
        begin_start_spec(uploads, session_id, file_name, size, sha, root, kind) matches BeginStepV::Ask(m2, q2)
            ==> begin_disk_inv(m2, q2, disk) && m2.kind == kind && m2.file_name == file_name
            && m2.size_bytes == size && m2.uploads == uploads,
        begin_step_keeps(m, q, r, id, disk),
        begin_disk_inv(m, q, disk) ==> (begin_step_spec(m, r, id) matches BeginStepV::Finished(t, Err(_))
            ==> t == m.uploads),
        begin_disk_inv(m, q, disk) ==> (begin_step_spec(m, r, id) matches BeginStepV::Finished(t, Ok(uid))
            ==> {
            let p = t[uid];
            &&& m.phase is TempPerm && uid == m.upload_id
            &&& t == m.uploads.insert(uid, p) && p == pending_spec(m)
            &&& p.written == 0 && p.fed == Seq::<u8>::empty() && p.expected_size == m.size_bytes
            &&& p.validate_image == (m.kind is LegacyImage)
            &&& disk_after(disk, q, r).contains_key(p.temporary_path)
            &&& disk_after(disk, q, r)[p.temporary_path] == p.fed
            &&& match m.kind {
                AttachmentKind::AnyFile => p.target_path == join_spec(p.parent_dir, m.file_name),
                AttachmentKind::LegacyImage => m.legacy_extension matches Some(x) && p.target_path
                    == join_spec(m.session_dir, legacy_target_name(uid, x)),
            }
        }),
{
    match m.phase {
        BeginPhase::RootMade => { assert(begin_step_keeps(m, q, r, id, disk)); },
        BeginPhase::RootMeta => { assert(begin_step_keeps(m, q, r, id, disk)); },
        BeginPhase::RootPerm => { assert(begin_step_keeps(m, q, r, id, disk)); },
        BeginPhase::RootCanon => { assert(begin_step_keeps(m, q, r, id, disk)); },
        BeginPhase::Swept => { assert(begin_step_keeps(m, q, r, id, disk)); },
        BeginPhase::SessionMeta => { assert(begin_step_keeps(m, q, r, id, disk)); },
        BeginPhase::SessionMade => { assert(begin_step_keeps(m, q, r, id, disk)); },
        BeginPhase::SessionPerm => { assert(begin_step_keeps(m, q, r, id, disk)); },
        BeginPhase::SessionCanon => { assert(begin_step_keeps(m, q, r, id, disk)); },
        BeginPhase::UploadDirMade => { assert(begin_step_keeps(m, q, r, id, disk)); },
        BeginPhase::UploadDirPerm => { assert(begin_step_keeps(m, q, r, id, disk)); },
        BeginPhase::UploadDirCanon => { assert(begin_step_keeps(m, q, r, id, disk)); },
        BeginPhase::TempMade => { assert(begin_step_keeps(m, q, r, id, disk)); },
        BeginPhase::TempPerm => { assert(begin_step_keeps(m, q, r, id, disk)); },
        BeginPhase::RetryAfterRemove => { assert(begin_step_keeps(m, q, r, id, disk)); },
        BeginPhase::CleanFile => { assert(begin_step_keeps(m, q, r, id, disk)); },
        BeginPhase::CleanDir => { assert(begin_step_keeps(m, q, r, id, disk)); },
    }
}

/// No more than 16 uploads are ever in progress, and the limit is the
/// first thing a start checks: with 16 in progress a start fails with
/// `attachment_upload_limit_reached` whatever else is wrong with the
/// request, and leaves the table as it was; a start that succeeds from a
/// table of at most 16 leaves at most 16.
pub proof fn lemma_upload_limit(
    m: AttachBeginV,
    r: FsReplyV,
    id: Seq<char>,
    uploads: Map<Seq<char>, PendingV>,
    session_id: Seq<char>,
    file_name: Seq<char>,
    size: u64,
    sha: Seq<char>,
    root: Seq<char>,
    kind: AttachmentKind,
)
    ensures
        uploads.dom().len() >= MAX_ACTIVE_ATTACHMENT_UPLOADS ==> begin_start_spec(
            uploads,
            session_id,
            file_name,
            size,
            sha,
            root,
            kind,
        ) == BeginStepV::Finished(uploads, Err("attachment_upload_limit_reached"@)),
        m.uploads.dom().finite() && m.uploads.dom().len() <= MAX_ACTIVE_ATTACHMENT_UPLOADS ==> (
        begin_step_spec(m, r, id) matches BeginStepV::Finished(t, _) ==> t.dom().finite() && t.dom().len()
            <= MAX_ACTIVE_ATTACHMENT_UPLOADS),
{
    if m.uploads.dom().finite() && m.uploads.dom().len() <= MAX_ACTIVE_ATTACHMENT_UPLOADS {
        let t = m.uploads.insert(m.upload_id, pending_spec(m));
        if m.uploads.contains_key(m.upload_id) {
            assert(t.dom() =~= m.uploads.dom());
        } else {
            assert(t.dom() =~= m.uploads.dom().insert(m.upload_id));
        }
    }
}

/// A chunk is accepted only at the offset the upload has reached, and then
/// its bytes land right after those already received: a chunk at any other
/// offset is refused with `attachment_chunk_offset_invalid` (and, refused,
/// changes nothing, so the chunk at the right offset is accepted after it);
/// a chunk at the right offset that stays within the declared size is
/// accepted; and written at its offset into a temporary file that holds the
/// bytes received so far, an accepted chunk leaves the file holding the
/// bytes received with it, as many as the upload then counts.
pub proof fn lemma_chunks_fill_temporary_file(
    m: Map<Seq<char>, PendingV>,
    id: Seq<char>,
    offset: u64,
    data: Seq<u8>,
    file: Seq<u8>,
)
    requires
        m.contains_key(id),
        pending_ok(m[id]),
    ensures
        offset != m[id].written ==> chunk_check_spec(m, id, offset, data) == Err::<u64, Seq<char>>(
            "attachment_chunk_offset_invalid"@,
        ),
        offset == m[id].written && m[id].written + data.len() <= m[id].expected_size ==> chunk_check_spec(
            m,
            id,
            offset,
            data,
        ) == Ok::<u64, Seq<char>>((m[id].written + data.len()) as u64),
        file == m[id].fed ==> (chunk_check_spec(m, id, offset, data) matches Ok(n) ==> write_at(
            file,
            offset as int,
            data,
        ) == m[id].fed + data && n == (m[id].fed + data).len()),
{
    if file == m[id].fed && chunk_check_spec(m, id, offset, data) is Ok {
        assert(file.take(offset as int) =~= file);
        assert(write_at(file, offset as int, data) =~= m[id].fed + data);
    }
}

/// Aborting an upload hands back its temporary file and its directory and
/// forgets it: once the file is removed it holds nothing on disk, and a
/// second abort of the same id finds nothing.
pub proof fn lemma_abort_forgets(m: Map<Seq<char>, PendingV>, id: Seq<char>, disk: Map<Seq<char>, Seq<u8>>)
    requires
        m.contains_key(id),
    ensures
        leftovers_of(m[id]) == (m[id].temporary_path, m[id].cleanup_dir),
        !disk_after(disk, FsRequestV::RemoveFile(m[id].temporary_path), FsReplyV::Done(true)).contains_key(
            m[id].temporary_path,
        ),
        !m.remove(id).contains_key(id),
{
}

/// What a finishing upload knows of its temporary file between two steps,
/// `q` being the request it waits on and `fed` the bytes it received: its
/// digest and size are those of `fed`; until it asks for the commit, its
/// temporary file holds `fed` and its requests change no file; the commit
/// is the rename of that file to the target; the cleanup removes the
/// temporary file, then the upload's directory.
pub open spec fn finish_disk_inv(m: AttachFinishV, q: FsRequestV, disk: Map<Seq<char>, Seq<u8>>, fed: Seq<u8>) -> bool {
    &&& m.digest == sha256_hex(fed)
    &&& m.written == fed.len()
    &&& (m.phase is Synced || m.phase is Dimensions || m.phase is ParentMeta || m.phase is ParentCanon
        || m.phase is TargetProbe) ==> keeps_contents(q) && disk.contains_key(m.temporary_path)
        && disk[m.temporary_path] == fed
    &&& m.phase is Committed ==> q == FsRequestV::Rename(m.temporary_path, m.target_path)
        && disk.contains_key(m.temporary_path) && disk[m.temporary_path] == fed
    &&& m.phase is CleanFile ==> q == FsRequestV::RemoveFile(m.temporary_path)
    &&& m.phase is CleanDir ==> keeps_contents(q)
}

/// One step of a finishing upload keeps `finish_disk_inv`; a step that does
/// not end in success adds no file; and a step that ends in success has
/// just moved exactly the received bytes to the target.
pub open spec fn finish_step_keeps(m: AttachFinishV, q: FsRequestV, r: FsReplyV, disk: Map<Seq<char>, Seq<u8>>, fed: Seq<u8>) -> bool {
    let d2 = disk_after(disk, q, r);
    &&& finish_step_spec(m, r) matches FinishStepV::Ask(m2, q2) ==> finish_disk_inv(m2, q2, d2, fed)
    &&& !(finish_step_spec(m, r) matches FinishStepV::Finished(Ok(_))) ==> d2.dom().subset_of(disk.dom())
    &&& finish_step_spec(m, r) matches FinishStepV::Finished(Ok((path, n))) ==> (m.phase is Committed
        && path == m.target_path && d2.contains_key(path) && d2[path] == fed && n == fed.len())
}

/// A finished upload stores exactly the bytes sent, and a failed one adds
/// no file. Given that the upload's temporary file holds the bytes it
/// received (as `lemma_begin_records_empty_upload` and
/// `lemma_chunks_fill_temporary_file` keep it), finishing sets out with
/// `finish_disk_inv`; every step keeps it and adds no file unless it ends
/// in success; success comes right after the temporary file was renamed to
/// the target, which then holds exactly the received bytes, as many as were
/// declared, whose digest is the declared one; and the cleanup, once its
/// removal is done, leaves no temporary file.
#[verifier::spinoff_prover]
#[verifier::rlimit(50)]
pub proof fn lemma_finish_stores_sent_bytes(
    p: PendingV,
    m: AttachFinishV,
    q: FsRequestV,
    r: FsReplyV,
    disk: Map<Seq<char>, Seq<u8>>,
    fed: Seq<u8>,
)
    ensures
        pending_ok(p) && disk.contains_key(p.temporary_path) && disk[p.temporary_path] == p.fed ==> (
        finish_start_spec(p) matches FinishStepV::Ask(m2, q2) ==> finish_disk_inv(m2, q2, disk, p.fed)
            && m2.temporary_path == p.temporary_path && m2.target_path == p.target_path
            && m2.expected_size == p.expected_size && m2.expected_sha256 == p.expected_sha256),
        finish_disk_inv(m, q, disk, fed) ==> finish_step_keeps(m, q, r, disk, fed),
        finish_disk_inv(m, q, disk, fed) && finish_inv(m) ==> (finish_step_spec(m, r) matches FinishStepV::Finished(
            Ok((path, n)),
        ) ==> n == m.expected_size && sha256_hex(fed) == m.expected_sha256),
        finish_disk_inv(m, q, disk, fed) && m.phase is CleanFile && reply_done(r) ==> !disk_after(
            disk,
            q,
            r,
        ).contains_key(m.temporary_path),
{
    let d2 = disk_after(disk, q, r);
    if finish_disk_inv(m, q, disk, fed) {
        if keeps_contents(q) {
            assert(d2 == disk);
        }
        if q is RemoveFile {
            assert(d2.dom().subset_of(disk.dom()));
        }
        match m.phase {
            FinishPhase::Synced => { assert(finish_step_keeps(m, q, r, disk, fed)); },
            FinishPhase::Dimensions => { assert(finish_step_keeps(m, q, r, disk, fed)); },
            FinishPhase::ParentMeta => { assert(finish_step_keeps(m, q, r, disk, fed)); },
            FinishPhase::ParentCanon => { assert(finish_step_keeps(m, q, r, disk, fed)); },
            FinishPhase::TargetProbe => { assert(finish_step_keeps(m, q, r, disk, fed)); },
            FinishPhase::Committed => {
                if !reply_done(r) {
                    assert(d2 == disk);
                }
                assert(finish_step_keeps(m, q, r, disk, fed));
            },
            FinishPhase::CleanFile => { assert(finish_step_keeps(m, q, r, disk, fed)); },
            FinishPhase::CleanDir => { assert(finish_step_keeps(m, q, r, disk, fed)); },
        }
    }
}

/// An upload of any file keeps its name and is never checked as an image:
/// it is recorded not to be checked (see
/// `lemma_begin_records_empty_upload`, which also keeps the file's name in
/// its target), and finishing such an upload never asks for image
/// dimensions and never waits on them.
pub proof fn lemma_any_file_skips_image_check(p: PendingV, m: AttachFinishV, r: FsReplyV)
    ensures
        !p.validate_image ==> (finish_start_spec(p) matches FinishStepV::Ask(m2, q2) ==> !m2.validate_image
            && !(m2.phase is Dimensions) && !(q2 is ImageDimensions)),
        !m.validate_image && !(m.phase is Dimensions) ==> (finish_step_spec(m, r) matches FinishStepV::Ask(m2, q2)
            ==> !m2.validate_image && !(m2.phase is Dimensions) && !(q2 is ImageDimensions)),
{
}

/// Where a finishing upload ends after it is answered `rs` in turn, from
/// waiting on `q` with the files holding `disk`: how it ended, if it ended
/// within those replies, and what the files hold after the requests
/// answered.
pub open spec fn finish_run(
    m: AttachFinishV,
    q: FsRequestV,
    disk: Map<Seq<char>, Seq<u8>>,
    rs: Seq<FsReplyV>,
) -> (Option<Result<(Seq<char>, u64), Seq<char>>>, Map<Seq<char>, Seq<u8>>)
    decreases rs.len(),
{
    if rs.len() == 0 {
        (None, disk)
    } else {
        let d2 = disk_after(disk, q, rs[0]);
        match finish_step_spec(m, rs[0]) {
            FinishStepV::Ask(m2, q2) => finish_run(m2, q2, d2, rs.drop_first()),
            FinishStepV::Finished(out) => (Some(out), d2),
        }
    }
}

/// What holds at every point of a finishing run that started from the
/// files `start` and an upload that received `fed`: the step invariants,
/// the upload's paths and declarations unchanged, and the files as they
/// were, but for the temporary file once its removal is done.
pub open spec fn finish_run_inv(
    m: AttachFinishV,
    q: FsRequestV,
    cur: Map<Seq<char>, Seq<u8>>,
    start: Map<Seq<char>, Seq<u8>>,
    fed: Seq<u8>,
    p: PendingV,
) -> bool {
    &&& finish_disk_inv(m, q, cur, fed) && finish_inv(m)
    &&& m.temporary_path == p.temporary_path && m.target_path == p.target_path
    &&& m.expected_size == p.expected_size && m.expected_sha256 == p.expected_sha256
    &&& m.phase is CleanDir ==> (cur == start || cur == start.remove(p.temporary_path))
    &&& !(m.phase is CleanDir) ==> cur == start
}

proof fn lemma_finish_run_step(
    m: AttachFinishV,
    q: FsRequestV,
    r: FsReplyV,
    cur: Map<Seq<char>, Seq<u8>>,
    start: Map<Seq<char>, Seq<u8>>,
    fed: Seq<u8>,
    p: PendingV,
)
    requires
        finish_run_inv(m, q, cur, start, fed, p),
    ensures
        finish_step_spec(m, r) matches FinishStepV::Ask(m2, q2) ==> finish_run_inv(
            m2,
            q2,
            disk_after(cur, q, r),
            start,
            fed,
            p,
        ),
        finish_step_spec(m, r) matches FinishStepV::Finished(Ok((path, n))) ==> path == p.target_path && n
            == p.expected_size && fed.len() == p.expected_size && sha256_hex(fed) == p.expected_sha256
            && disk_after(cur, q, r) == start.remove(p.temporary_path).insert(p.target_path, fed),
        finish_step_spec(m, r) matches FinishStepV::Finished(Err(_)) ==> (disk_after(cur, q, r) == start
            || disk_after(cur, q, r) == start.remove(p.temporary_path)),
{
    lemma_finish_stores_sent_bytes(p, m, q, r, cur, fed);
    lemma_finish_commits_only_verified(p, m, r);
    let d2 = disk_after(cur, q, r);
    if keeps_contents(q) {
        assert(d2 == cur);
    }
    if m.phase is Committed && reply_done(r) {
        assert(d2 =~= start.remove(p.temporary_path).insert(p.target_path, fed));
    }
    if m.phase is Committed && !reply_done(r) {
        assert(d2 == cur);
    }
}

proof fn lemma_finish_run_ends(
    m: AttachFinishV,
    q: FsRequestV,
    cur: Map<Seq<char>, Seq<u8>>,
    start: Map<Seq<char>, Seq<u8>>,
    fed: Seq<u8>,
    p: PendingV,
    rs: Seq<FsReplyV>,
)
    requires
        finish_run_inv(m, q, cur, start, fed, p),
    ensures
        finish_run(m, q, cur, rs).0 matches Some(Ok((path, n))) ==> path == p.target_path && n
            == p.expected_size && fed.len() == p.expected_size && sha256_hex(fed) == p.expected_sha256
            && finish_run(m, q, cur, rs).1 == start.remove(p.temporary_path).insert(p.target_path, fed),
        finish_run(m, q, cur, rs).0 matches Some(Err(_)) ==> (finish_run(m, q, cur, rs).1 == start
            || finish_run(m, q, cur, rs).1 == start.remove(p.temporary_path)),
    decreases rs.len(),
{
    if rs.len() > 0 {
        lemma_finish_run_step(m, q, rs[0], cur, start, fed, p);
        match finish_step_spec(m, rs[0]) {
            FinishStepV::Ask(m2, q2) => {
                lemma_finish_run_ends(m2, q2, disk_after(cur, q, rs[0]), start, fed, p, rs.drop_first());
            },
            FinishStepV::Finished(_) => {},
        }
    }
}

/// A whole finish, whatever the file system answers: started on an upload
/// whose temporary file holds the bytes it received, finishing ends in
/// success only with the declared size and digest, and then the target
/// holds exactly those bytes, the temporary file is gone, and every other
/// file is as it was; it ends in failure only with every file as it was,
/// but for the temporary file once its removal is done.
pub proof fn lemma_finish_whole_run(p: PendingV, disk: Map<Seq<char>, Seq<u8>>, rs: Seq<FsReplyV>)
    requires
        pending_ok(p),
        disk.contains_key(p.temporary_path),
        disk[p.temporary_path] == p.fed,
    ensures
        finish_start_spec(p) matches FinishStepV::Ask(m, q) && ({
            let (out, end) = finish_run(m, q, disk, rs);
            &&& out matches Some(Ok((path, n))) ==> path == p.target_path && n == p.expected_size
                && p.fed.len() == p.expected_size && sha256_hex(p.fed) == p.expected_sha256 && end
                == disk.remove(p.temporary_path).insert(p.target_path, p.fed)
            &&& out matches Some(Err(_)) ==> (end == disk || end == disk.remove(p.temporary_path))
        }),
{
    lemma_finish_failure_cleans(p, finish_start_spec(p)->Ask_0, FsReplyV::Done(true));
    match finish_start_spec(p) {
        FinishStepV::Ask(m, q) => {
            lemma_finish_stores_sent_bytes(p, m, q, FsReplyV::Done(true), disk, p.fed);
            lemma_finish_commits_only_verified(p, m, FsReplyV::Done(true));
        },
        _ => {},
    }
    match finish_start_spec(p) {
        FinishStepV::Ask(m, q) => {
            lemma_finish_run_ends(m, q, disk, disk, p.fed, p, rs);
        },
        _ => {},
    }
}

/// Where a starting upload ends after it is answered `rs` in turn (each
/// reply with the fresh id the step would try), from waiting on `q` with
/// the files holding `disk`: how it ended, if it ended within those
/// replies, and what the files hold after the requests answered.
pub open spec fn begin_run(
    m: AttachBeginV,
    q: FsRequestV,
    disk: Map<Seq<char>, Seq<u8>>,
    rs: Seq<(FsReplyV, Seq<char>)>,
) -> (Option<(Map<Seq<char>, PendingV>, Result<Seq<char>, Seq<char>>)>, Map<Seq<char>, Seq<u8>>)
    decreases rs.len(),
{
    if rs.len() == 0 {
        (None, disk)
    } else {
        let d2 = disk_after(disk, q, rs[0].0);
        match begin_step_spec(m, rs[0].0, rs[0].1) {
            BeginStepV::Ask(m2, q2) => begin_run(m2, q2, d2, rs.drop_first()),
            BeginStepV::Finished(t, out) => (Some((t, out)), d2),
        }
    }
}

proof fn lemma_begin_run_ends(
    m: AttachBeginV,
    q: FsRequestV,
    disk: Map<Seq<char>, Seq<u8>>,
    rs: Seq<(FsReplyV, Seq<char>)>,
)
    requires
        begin_disk_inv(m, q, disk),
    ensures
        begin_run(m, q, disk, rs).0 matches Some((t, Err(_))) ==> t == m.uploads,
        begin_run(m, q, disk, rs).0 matches Some((t, Ok(uid))) ==> {
            let p = t[uid];
            let end = begin_run(m, q, disk, rs).1;
            &&& t == m.uploads.insert(uid, p)
            &&& p.written == 0 && p.fed == Seq::<u8>::empty() && p.expected_size == m.size_bytes
            &&& p.expected_sha256 == m.expected_sha256
            &&& p.validate_image == (m.kind is LegacyImage)
            &&& end.contains_key(p.temporary_path) && end[p.temporary_path] == p.fed
            &&& m.kind is AnyFile ==> p.target_path == join_spec(p.parent_dir, m.file_name)
        },
    decreases rs.len(),
{
    if rs.len() > 0 {
        let (r, id) = rs[0];
        lemma_begin_records_empty_upload(
            m, q, r, id, disk, m.uploads, m.file_name, m.file_name, 0, m.file_name, m.file_name, m.kind,
        );
        match begin_step_spec(m, r, id) {
            BeginStepV::Ask(m2, q2) => {
                lemma_begin_run_ends(m2, q2, disk_after(disk, q, r), rs.drop_first());
            },
            BeginStepV::Finished(_, _) => {},
        }
    }
}

/// The chunks one after another.
pub open spec fn concat_all(chunks: Seq<Seq<u8>>) -> Seq<u8>
    decreases chunks.len(),
{
    if chunks.len() == 0 {
        Seq::empty()
    } else {
        chunks[0] + concat_all(chunks.drop_first())
    }
}

/// The upload `uid` of the table `t` sent `chunks` in turn, each at the
/// offset it has reached and written there into its temporary file: the
/// table and the files after them, or `None` when one is refused.
pub open spec fn chunks_run(
    t: Map<Seq<char>, PendingV>,
    uid: Seq<char>,
    disk: Map<Seq<char>, Seq<u8>>,
    chunks: Seq<Seq<u8>>,
) -> Option<(Map<Seq<char>, PendingV>, Map<Seq<char>, Seq<u8>>)>
    decreases chunks.len(),
{
    if chunks.len() == 0 {
        Some((t, disk))
    } else {
        let off = t[uid].written;
        let temp = t[uid].temporary_path;
        match chunk_check_spec(t, uid, off, chunks[0]) {
            Ok(n) => chunks_run(
                t.insert(uid, PendingV { written: n, fed: t[uid].fed + chunks[0], ..t[uid] }),
                uid,
                disk.insert(temp, write_at(disk[temp], off as int, chunks[0])),
                chunks.drop_first(),
            ),
            Err(_) => None,
        }
    }
}

proof fn lemma_chunks_run(
    t: Map<Seq<char>, PendingV>,
    uid: Seq<char>,
    disk: Map<Seq<char>, Seq<u8>>,
    chunks: Seq<Seq<u8>>,
)
    requires
        t.contains_key(uid),
        pending_ok(t[uid]),
        disk.contains_key(t[uid].temporary_path),
        disk[t[uid].temporary_path] == t[uid].fed,
    ensures
        chunks_run(t, uid, disk, chunks) matches Some((t2, d2)) ==> {
            let p = t2[uid];
            &&& t2 == t.insert(uid, p)
            &&& p == PendingV { written: p.written, fed: t[uid].fed + concat_all(chunks), ..t[uid] }
            &&& pending_ok(p)
            &&& d2.contains_key(p.temporary_path) && d2[p.temporary_path] == p.fed
        },
    decreases chunks.len(),
{
    if chunks.len() == 0 {
        assert(t[uid].fed + concat_all(chunks) =~= t[uid].fed);
        assert(t.insert(uid, t[uid]) =~= t);
    } else {
        let off = t[uid].written;
        let temp = t[uid].temporary_path;
        lemma_chunks_fill_temporary_file(t, uid, off, chunks[0], disk[temp]);
        match chunk_check_spec(t, uid, off, chunks[0]) {
            Ok(n) => {
                let t1 = t.insert(uid, PendingV { written: n, fed: t[uid].fed + chunks[0], ..t[uid] });
                let d1 = disk.insert(temp, write_at(disk[temp], off as int, chunks[0]));
                lemma_chunks_run(t1, uid, d1, chunks.drop_first());
                assert(t[uid].fed + chunks[0] + concat_all(chunks.drop_first()) =~= t[uid].fed + concat_all(chunks));
                match chunks_run(t1, uid, d1, chunks.drop_first()) {
                    Some((t2, d2)) => {
                        assert(t1.insert(uid, t2[uid]) =~= t.insert(uid, t2[uid]));
                    },
                    None => {},
                }
            },
            Err(_) => {},
        }
    }
}

/// A whole upload, whatever the file system answers and whatever ids are
/// drawn: when its start succeeds, the table holds the old uploads and the
/// new one, which has received nothing; when it then accepts every chunk
/// sent, each at the offset reached, the upload has received exactly the
/// chunks one after another, and its temporary file holds them; and when
/// its finish then succeeds, it reports the upload's target and the
/// declared size, the chunks together are as long as declared and have the
/// declared digest, and the target holds exactly them. Without a start
/// that succeeds, the table is as it was.
pub proof fn lemma_upload_whole_run(
    uploads: Map<Seq<char>, PendingV>,
    session_id: Seq<char>,
    file_name: Seq<char>,
    size: u64,
    sha: Seq<char>,
    root: Seq<char>,
    kind: AttachmentKind,
    disk: Map<Seq<char>, Seq<u8>>,
    begin_replies: Seq<(FsReplyV, Seq<char>)>,
    chunks: Seq<Seq<u8>>,
    finish_replies: Seq<FsReplyV>,
)
    ensures
        begin_start_spec(uploads, session_id, file_name, size, sha, root, kind) matches BeginStepV::Finished(
            t,
            _,
        ) ==> t == uploads,
        begin_start_spec(uploads, session_id, file_name, size, sha, root, kind) matches BeginStepV::Ask(m, q)
            ==> {
            let (started, d1) = begin_run(m, q, disk, begin_replies);
            &&& started matches Some((t, Err(_))) ==> t == uploads
            &&& started matches Some((t, Ok(uid))) ==> {
                let p0 = t[uid];
                &&& t == uploads.insert(uid, p0)
                &&& p0.written == 0 && p0.fed == Seq::<u8>::empty() && p0.expected_size == size
                &&& p0.validate_image == (kind is LegacyImage)
                &&& kind is AnyFile ==> p0.target_path == join_spec(p0.parent_dir, file_name)
                &&& chunks_run(t, uid, d1, chunks) matches Some((t2, d2)) ==> {
                    let p = t2[uid];
                    &&& t2 == uploads.insert(uid, p)
                    &&& p.fed == concat_all(chunks) && p.target_path == p0.target_path
                    &&& d2.contains_key(p.temporary_path) && d2[p.temporary_path] == concat_all(chunks)
                    &&& finish_start_spec(p) matches FinishStepV::Ask(fm, fq) && ({
                        let (out, end) = finish_run(fm, fq, d2, finish_replies);
                        &&& out matches Some(Ok((path, n))) ==> path == p0.target_path && n == size
                            && concat_all(chunks).len() == size && sha256_hex(concat_all(chunks))
                            == p0.expected_sha256 && end.contains_key(path) && end[path] == concat_all(chunks)
                        &&& out matches Some(Err(_)) ==> (end == d2 || end == d2.remove(p.temporary_path))
                    })
                }
            }
        },
{
    let start = begin_start_spec(uploads, session_id, file_name, size, sha, root, kind);
    lemma_begin_records_empty_upload(
        start->Ask_0, start->Ask_1, FsReplyV::Done(true), Seq::empty(), disk, uploads, session_id, file_name,
        size, sha, root, kind,
    );
    match start {
        BeginStepV::Ask(m, q) => {
            lemma_begin_run_ends(m, q, disk, begin_replies);
            let (started, d1) = begin_run(m, q, disk, begin_replies);
            match started {
                Some((t, Ok(uid))) => {
                    lemma_chunks_run(t, uid, d1, chunks);
                    match chunks_run(t, uid, d1, chunks) {
                        Some((t2, d2)) => {
                            let p = t2[uid];
                            assert(p.fed =~= concat_all(chunks));
                            assert(t2 =~= uploads.insert(uid, p));
                            lemma_finish_whole_run(p, d2, finish_replies);
                        },
                        None => {},
                    }
                },
                _ => {},
            }
        },
        _ => {},
    }
}

} // verus!
