//! The sweep of the attachment cache: files older than the retention period
//! are removed from the session directories and the upload directories
//! below them, and directories left empty go too.

use vstd::prelude::*;
use crate::fsproto::{
    items_view, reply_listing, reply_meta, take_listing, take_meta, DirItem, DirItemV, FsReply,
    FsReplyV, FsRequest, FsRequestV, ListingV, MetaReply,
};
use crate::text::copy_string;

verus! {

/// How long an attachment is kept, in nanoseconds.
pub const ATTACHMENT_RETENTION_NS: i128 = 172800000000000;

/// Whether a file modified at `modified_ns` (nanoseconds since the Unix
/// epoch, when known) has outlived the retention period at `now_ns`: it was
/// not modified after `now_ns`, and at least the retention period lies
/// between the two.
pub open spec fn expired_spec(modified_ns: Option<i128>, now_ns: i128) -> bool {
    match modified_ns {
        Some(t) => t <= now_ns && now_ns - t >= ATTACHMENT_RETENTION_NS,
        None => false,
    }
}

/// A path has expired when its metadata was read and its modification
/// time has outlived the retention period.
pub open spec fn meta_expired(meta: MetaReply, now_ns: i128) -> bool {
    meta matches MetaReply::Found(f) && expired_spec(f.modified_ns, now_ns)
}

/// `attachment_path_expired` on what `metadata` told of the path.
pub fn attachment_path_expired(meta: MetaReply, now_ns: i128) -> (r: bool)
    ensures
        r == meta_expired(meta, now_ns),
{
    match meta {
        MetaReply::Found(f) => match f.modified_ns {
            Some(t) => {
                if now_ns < i128::MIN + ATTACHMENT_RETENTION_NS {
                    false
                } else {
                    t <= now_ns - ATTACHMENT_RETENTION_NS
                }
            },
            None => false,
        },
        _ => false,
    }
}

/// `SystemTime::now().duration_since(UNIX_EPOCH)` in nanoseconds
/// (`Duration::as_nanos`): `(true, n)` when the clock reads `n` nanoseconds
/// after the epoch, `(false, n)` when it reads `n` before it. What it
/// returns is the clock's reading; nothing is stated of it.
#[verifier::external_body]
fn clock_since_epoch_ns() -> (bool, u128) {
    match std::time::SystemTime::now().duration_since(std::time::UNIX_EPOCH) {
        Ok(d) => (true, d.as_nanos()),
        Err(e) => (false, e.duration().as_nanos()),
    }
}

/// The current time in nanoseconds since the Unix epoch, negative before
/// it. A reading beyond what an `i128` holds (no clock gives one) is held
/// at the limit.
pub(crate) fn now_ns() -> i128 {
    let (after, n) = clock_since_epoch_ns();
    if n > 170141183460469231731687303715884105727u128 {
        if after {
            i128::MAX
        } else {
            i128::MIN
        }
    } else if after {
        n as i128
    } else {
        -(n as i128)
    }
}

/// The current time in milliseconds since the Unix epoch, 0 before it
/// (`SystemTime::now`). What it returns is the clock's reading; nothing is
/// stated of it.
#[verifier::external_body]
pub(crate) fn now_ms() -> u64 {
    std::time::SystemTime::now()
        .duration_since(std::time::UNIX_EPOCH)
        .map(|d| d.as_millis() as u64)
        .unwrap_or(0)
}

/// Where a sweep stands: the reply it waits for.
#[derive(Clone, Copy)]
pub enum SweepPhase {
    /// The listing of the cache root (the session directories).
    ReadRoot,
    /// The listing of the current session directory.
    ReadSession,
    /// The metadata of a file directly in the session directory.
    EntryAge,
    /// The removal of that file.
    EntryRemoved,
    /// The listing of an upload directory.
    ReadEntry,
    /// The metadata of a file in the upload directory.
    ChildAge,
    /// The removal of that file.
    ChildRemoved,
    /// The upload directory listed again, to see whether it is empty.
    EntryRecheck,
    /// The removal of the empty upload directory.
    EntryDirRemoved,
    /// The session directory listed again, to see whether it is empty.
    SessionRecheck,
    /// The removal of the empty session directory.
    SessionRemoved,
}

/// A sweep of the cache in progress: the three levels of listings it walks
/// and how far it has come in each.
pub struct CacheSweep {
    pub now_ns: i128,
    pub phase: SweepPhase,
    pub sessions: Vec<DirItem>,
    pub s_next: usize,
    pub s_complete: bool,
    pub entries: Vec<DirItem>,
    pub e_next: usize,
    pub e_complete: bool,
    pub children: Vec<DirItem>,
    pub c_next: usize,
    pub c_complete: bool,
}

pub struct CacheSweepV {
    pub now_ns: i128,
    pub phase: SweepPhase,
    pub sessions: Seq<DirItemV>,
    pub s_next: int,
    pub s_complete: bool,
    pub entries: Seq<DirItemV>,
    pub e_next: int,
    pub e_complete: bool,
    pub children: Seq<DirItemV>,
    pub c_next: int,
    pub c_complete: bool,
}

impl View for CacheSweep {
    type V = CacheSweepV;

    open spec fn view(&self) -> CacheSweepV {
        CacheSweepV {
            now_ns: self.now_ns,
            phase: self.phase,
            sessions: items_view(self.sessions@),
            s_next: self.s_next as int,
            s_complete: self.s_complete,
            entries: items_view(self.entries@),
            e_next: self.e_next as int,
            e_complete: self.e_complete,
            children: items_view(self.children@),
            c_next: self.c_next as int,
            c_complete: self.c_complete,
        }
    }
}

pub enum SweepStep {
    Ask(CacheSweep, FsRequest),
    Finished(Result<(), String>),
}

pub enum SweepStepV {
    Ask(CacheSweepV, FsRequestV),
    Finished(Result<(), Seq<char>>),
}

impl View for SweepStep {
    type V = SweepStepV;

    open spec fn view(&self) -> SweepStepV {
        match self {
            SweepStep::Ask(m, q) => SweepStepV::Ask(m@, q@),
            SweepStep::Finished(r) => SweepStepV::Finished(
                match r {
                    Ok(()) => Ok(()),
                    Err(e) => Err(e@),
                },
            ),
        }
    }
}

pub open spec fn sweep_fail() -> SweepStepV {
    SweepStepV::Finished(Err("attachment_cleanup_failed"@))
}

/// A directory listing that shows the directory empty: it was read, and
/// the first entry the system gave was the end.
pub open spec fn listed_empty(r: FsReplyV) -> bool {
    r matches FsReplyV::Entries(l) && l.items.len() == 0 && l.complete
}

/// Go on with the files of the current upload directory from `c_next`;
/// once they are done, list the directory again.
pub open spec fn adv_children(m: CacheSweepV) -> SweepStepV
    decreases m.children.len() - m.c_next,
{
    if m.c_next < 0 || m.e_next < 0 || m.e_next >= m.entries.len() {
        sweep_fail()
    } else if m.c_next >= m.children.len() {
        if !m.c_complete {
            sweep_fail()
        } else {
            SweepStepV::Ask(
                CacheSweepV { phase: SweepPhase::EntryRecheck, ..m },
                FsRequestV::ReadDir(m.entries[m.e_next].path),
            )
        }
    } else {
        let it = m.children[m.c_next];
        match it.kind {
            None => sweep_fail(),
            Some(k) => if k.is_file && !k.is_symlink {
                SweepStepV::Ask(CacheSweepV { phase: SweepPhase::ChildAge, ..m }, FsRequestV::Metadata(it.path))
            } else {
                adv_children(CacheSweepV { c_next: m.c_next + 1, ..m })
            },
        }
    }
}

/// Go on with the entries of the current session directory from `e_next`;
/// once they are done, list the session directory again.
pub open spec fn adv_entries(m: CacheSweepV) -> SweepStepV
    decreases m.entries.len() - m.e_next,
{
    if m.e_next < 0 || m.s_next < 0 || m.s_next >= m.sessions.len() {
        sweep_fail()
    } else if m.e_next >= m.entries.len() {
        if !m.e_complete {
            sweep_fail()
        } else {
            SweepStepV::Ask(
                CacheSweepV { phase: SweepPhase::SessionRecheck, ..m },
                FsRequestV::ReadDir(m.sessions[m.s_next].path),
            )
        }
    } else {
        let it = m.entries[m.e_next];
        match it.kind {
            None => sweep_fail(),
            Some(k) => if k.is_symlink {
                adv_entries(CacheSweepV { e_next: m.e_next + 1, ..m })
            } else if k.is_file {
                SweepStepV::Ask(CacheSweepV { phase: SweepPhase::EntryAge, ..m }, FsRequestV::Metadata(it.path))
            } else if !k.is_dir {
                adv_entries(CacheSweepV { e_next: m.e_next + 1, ..m })
            } else {
                SweepStepV::Ask(CacheSweepV { phase: SweepPhase::ReadEntry, ..m }, FsRequestV::ReadDir(it.path))
            },
        }
    }
}

/// Go on with the session directories from `s_next`; once they are done,
/// the sweep has succeeded.
pub open spec fn adv_sessions(m: CacheSweepV) -> SweepStepV
    decreases m.sessions.len() - m.s_next,
{
    if m.s_next < 0 {
        sweep_fail()
    } else if m.s_next >= m.sessions.len() {
        if !m.s_complete {
            sweep_fail()
        } else {
            SweepStepV::Finished(Ok(()))
        }
    } else {
        let it = m.sessions[m.s_next];
        match it.kind {
            None => sweep_fail(),
            Some(k) => if k.is_symlink || !k.is_dir {
                adv_sessions(CacheSweepV { s_next: m.s_next + 1, ..m })
            } else {
                SweepStepV::Ask(CacheSweepV { phase: SweepPhase::ReadSession, ..m }, FsRequestV::ReadDir(it.path))
            },
        }
    }
}

/// Past the current entry of the session directory.
pub open spec fn next_entry_spec(m: CacheSweepV) -> SweepStepV {
    if m.e_next < 0 || m.e_next >= m.entries.len() {
        sweep_fail()
    } else {
        adv_entries(CacheSweepV { e_next: m.e_next + 1, ..m })
    }
}

/// Past the current file of the upload directory.
pub open spec fn next_child_spec(m: CacheSweepV) -> SweepStepV {
    if m.c_next < 0 || m.c_next >= m.children.len() {
        sweep_fail()
    } else {
        adv_children(CacheSweepV { c_next: m.c_next + 1, ..m })
    }
}

/// Past the current session directory.
pub open spec fn next_session_spec(m: CacheSweepV) -> SweepStepV {
    if m.s_next < 0 || m.s_next >= m.sessions.len() {
        sweep_fail()
    } else {
        adv_sessions(CacheSweepV { s_next: m.s_next + 1, ..m })
    }
}

/// How a sweep of the cache under `root` starts, at the time `now_ns`.
pub open spec fn sweep_start_spec(root: Seq<char>, now_ns: i128) -> SweepStepV {
    SweepStepV::Ask(
        CacheSweepV {
            now_ns,
            phase: SweepPhase::ReadRoot,
            sessions: Seq::empty(),
            s_next: 0,
            s_complete: true,
            entries: Seq::empty(),
            e_next: 0,
            e_complete: true,
            children: Seq::empty(),
            c_next: 0,
            c_complete: true,
        },
        FsRequestV::ReadDir(root),
    )
}

/// One step of a sweep with the reply `r` to its last request.
pub open spec fn sweep_step_spec(m: CacheSweepV, r: FsReplyV) -> SweepStepV {
    match m.phase {
        SweepPhase::ReadRoot => {
            let l = reply_listing(r);
            adv_sessions(CacheSweepV { sessions: l.items, s_next: 0, s_complete: l.complete, ..m })
        },
        SweepPhase::ReadSession => {
            let l = reply_listing(r);
            adv_entries(CacheSweepV { entries: l.items, e_next: 0, e_complete: l.complete, ..m })
        },
        SweepPhase::EntryAge => if 0 <= m.e_next < m.entries.len() && meta_expired(reply_meta(r), m.now_ns) {
            SweepStepV::Ask(
                CacheSweepV { phase: SweepPhase::EntryRemoved, ..m },
                FsRequestV::RemoveFile(m.entries[m.e_next].path),
            )
        } else {
            next_entry_spec(m)
        },
        SweepPhase::EntryRemoved => next_entry_spec(m),
        SweepPhase::ReadEntry => {
            let l = reply_listing(r);
            adv_children(CacheSweepV { children: l.items, c_next: 0, c_complete: l.complete, ..m })
        },
        SweepPhase::ChildAge => if 0 <= m.c_next < m.children.len() && meta_expired(reply_meta(r), m.now_ns) {
            SweepStepV::Ask(
                CacheSweepV { phase: SweepPhase::ChildRemoved, ..m },
                FsRequestV::RemoveFile(m.children[m.c_next].path),
            )
        } else {
            next_child_spec(m)
        },
        SweepPhase::ChildRemoved => next_child_spec(m),
        SweepPhase::EntryRecheck => if 0 <= m.e_next < m.entries.len() && listed_empty(r) {
            SweepStepV::Ask(
                CacheSweepV { phase: SweepPhase::EntryDirRemoved, ..m },
                FsRequestV::RemoveDir(m.entries[m.e_next].path),
            )
        } else {
            next_entry_spec(m)
        },
        SweepPhase::EntryDirRemoved => next_entry_spec(m),
        SweepPhase::SessionRecheck => if 0 <= m.s_next < m.sessions.len() && listed_empty(r) {
            SweepStepV::Ask(
                CacheSweepV { phase: SweepPhase::SessionRemoved, ..m },
                FsRequestV::RemoveDir(m.sessions[m.s_next].path),
            )
        } else {
            next_session_spec(m)
        },
        SweepPhase::SessionRemoved => next_session_spec(m),
    }
}

fn fail_sweep() -> (r: SweepStep)
    ensures
        r@ == sweep_fail(),
{
    SweepStep::Finished(Err(String::from_str("attachment_cleanup_failed")))
}

fn is_listed_empty(r: &FsReply) -> (b: bool)
    ensures
        b == listed_empty(r@),
{
    match r {
        FsReply::Entries(l) => l.items.len() == 0 && l.complete,
        _ => false,
    }
}

impl CacheSweep {
    fn adv_children(self) -> (r: SweepStep)
        ensures
            r@ == adv_children(self@),
        decreases self.children@.len() - self.c_next,
    {
        if self.e_next >= self.entries.len() {
            return fail_sweep();
        }
        if self.c_next >= self.children.len() {
            if !self.c_complete {
                return fail_sweep();
            }
            let q = copy_string(self.entries[self.e_next].path.as_str());
            return SweepStep::Ask(CacheSweep { phase: SweepPhase::EntryRecheck, ..self }, FsRequest::ReadDir(q));
        }
        let kind = self.children[self.c_next].kind;
        match kind {
            None => fail_sweep(),
            Some(k) => {
                if k.is_file && !k.is_symlink {
                    let q = copy_string(self.children[self.c_next].path.as_str());
                    SweepStep::Ask(CacheSweep { phase: SweepPhase::ChildAge, ..self }, FsRequest::Metadata(q))
                } else {
                    let n = self.c_next + 1;
                    CacheSweep { c_next: n, ..self }.adv_children()
                }
            },
        }
    }

    fn adv_entries(self) -> (r: SweepStep)
        ensures
            r@ == adv_entries(self@),
        decreases self.entries@.len() - self.e_next,
    {
        if self.s_next >= self.sessions.len() {
            return fail_sweep();
        }
        if self.e_next >= self.entries.len() {
            if !self.e_complete {
                return fail_sweep();
            }
            let q = copy_string(self.sessions[self.s_next].path.as_str());
            return SweepStep::Ask(CacheSweep { phase: SweepPhase::SessionRecheck, ..self }, FsRequest::ReadDir(q));
        }
        let kind = self.entries[self.e_next].kind;
        match kind {
            None => fail_sweep(),
            Some(k) => {
                if k.is_symlink {
                    let n = self.e_next + 1;
                    CacheSweep { e_next: n, ..self }.adv_entries()
                } else if k.is_file {
                    let q = copy_string(self.entries[self.e_next].path.as_str());
                    SweepStep::Ask(CacheSweep { phase: SweepPhase::EntryAge, ..self }, FsRequest::Metadata(q))
                } else if !k.is_dir {
                    let n = self.e_next + 1;
                    CacheSweep { e_next: n, ..self }.adv_entries()
                } else {
                    let q = copy_string(self.entries[self.e_next].path.as_str());
                    SweepStep::Ask(CacheSweep { phase: SweepPhase::ReadEntry, ..self }, FsRequest::ReadDir(q))
                }
            },
        }
    }

    fn adv_sessions(self) -> (r: SweepStep)
        ensures
            r@ == adv_sessions(self@),
        decreases self.sessions@.len() - self.s_next,
    {
        if self.s_next >= self.sessions.len() {
            if !self.s_complete {
                return fail_sweep();
            }
            return SweepStep::Finished(Ok(()));
        }
        let kind = self.sessions[self.s_next].kind;
        match kind {
            None => fail_sweep(),
            Some(k) => {
                if k.is_symlink || !k.is_dir {
                    let n = self.s_next + 1;
                    CacheSweep { s_next: n, ..self }.adv_sessions()
                } else {
                    let q = copy_string(self.sessions[self.s_next].path.as_str());
                    SweepStep::Ask(CacheSweep { phase: SweepPhase::ReadSession, ..self }, FsRequest::ReadDir(q))
                }
            },
        }
    }

    /// Starts a sweep of the cache under `root` at the time `now_ns` (see
    /// `sweep_start_spec`).
    pub fn start_at(root: String, now_ns: i128) -> (r: SweepStep)
        ensures
            r@ == sweep_start_spec(root@, now_ns),
    {
        let m = CacheSweep {
            now_ns,
            phase: SweepPhase::ReadRoot,
            sessions: Vec::new(),
            s_next: 0,
            s_complete: true,
            entries: Vec::new(),
            e_next: 0,
            e_complete: true,
            children: Vec::new(),
            c_next: 0,
            c_complete: true,
        };
        proof {
            assert(m@.sessions =~= Seq::<DirItemV>::empty());
            assert(m@.entries =~= Seq::<DirItemV>::empty());
            assert(m@.children =~= Seq::<DirItemV>::empty());
        }
        SweepStep::Ask(m, FsRequest::ReadDir(root))
    }

    /// Starts a sweep of the cache under `root` now: the clock is read once,
    /// and every age is measured against that reading.
    pub fn start(root: String) -> (r: SweepStep)
        ensures
            exists|t: i128| r@ == #[trigger] sweep_start_spec(root@, t),
    {
        let t = now_ns();
        let r = Self::start_at(root, t);
        proof {
            assert(r@ == sweep_start_spec(root@, t));
        }
        r
    }

    /// One step with the reply to the last request (see `sweep_step_spec`).
    pub fn resume(self, reply: FsReply) -> (r: SweepStep)
        ensures
            r@ == sweep_step_spec(self@, reply@),
    {
        match self.phase {
            SweepPhase::ReadRoot => {
                let l = take_listing(reply);
                CacheSweep { sessions: l.items, s_next: 0, s_complete: l.complete, ..self }.adv_sessions()
            },
            SweepPhase::ReadSession => {
                let l = take_listing(reply);
                CacheSweep { entries: l.items, e_next: 0, e_complete: l.complete, ..self }.adv_entries()
            },
            SweepPhase::EntryAge => {
                let expired = self.e_next < self.entries.len() && attachment_path_expired(
                    take_meta(&reply),
                    self.now_ns,
                );
                if expired {
                    let q = copy_string(self.entries[self.e_next].path.as_str());
                    SweepStep::Ask(CacheSweep { phase: SweepPhase::EntryRemoved, ..self }, FsRequest::RemoveFile(q))
                } else {
                    self.next_entry()
                }
            },
            SweepPhase::EntryRemoved => self.next_entry(),
            SweepPhase::ReadEntry => {
                let l = take_listing(reply);
                CacheSweep { children: l.items, c_next: 0, c_complete: l.complete, ..self }.adv_children()
            },
            SweepPhase::ChildAge => {
                let expired = self.c_next < self.children.len() && attachment_path_expired(
                    take_meta(&reply),
                    self.now_ns,
                );
                if expired {
                    let q = copy_string(self.children[self.c_next].path.as_str());
                    SweepStep::Ask(CacheSweep { phase: SweepPhase::ChildRemoved, ..self }, FsRequest::RemoveFile(q))
                } else {
                    self.next_child()
                }
            },
            SweepPhase::ChildRemoved => self.next_child(),
            SweepPhase::EntryRecheck => {
                if self.e_next < self.entries.len() && is_listed_empty(&reply) {
                    let q = copy_string(self.entries[self.e_next].path.as_str());
                    SweepStep::Ask(CacheSweep { phase: SweepPhase::EntryDirRemoved, ..self }, FsRequest::RemoveDir(q))
                } else {
                    self.next_entry()
                }
            },
            SweepPhase::EntryDirRemoved => self.next_entry(),
            SweepPhase::SessionRecheck => {
                if self.s_next < self.sessions.len() && is_listed_empty(&reply) {
                    let q = copy_string(self.sessions[self.s_next].path.as_str());
                    SweepStep::Ask(CacheSweep { phase: SweepPhase::SessionRemoved, ..self }, FsRequest::RemoveDir(q))
                } else {
                    self.next_session()
                }
            },
            SweepPhase::SessionRemoved => self.next_session(),
        }
    }

    fn next_entry(self) -> (r: SweepStep)
        ensures
            r@ == next_entry_spec(self@),
    {
        if self.e_next >= self.entries.len() {
            return fail_sweep();
        }
        let n = self.e_next + 1;
        CacheSweep { e_next: n, ..self }.adv_entries()
    }

    fn next_child(self) -> (r: SweepStep)
        ensures
            r@ == next_child_spec(self@),
    {
        if self.c_next >= self.children.len() {
            return fail_sweep();
        }
        let n = self.c_next + 1;
        CacheSweep { c_next: n, ..self }.adv_children()
    }

    fn next_session(self) -> (r: SweepStep)
        ensures
            r@ == next_session_spec(self@),
    {
        if self.s_next >= self.sessions.len() {
            return fail_sweep();
        }
        let n = self.s_next + 1;
        CacheSweep { s_next: n, ..self }.adv_sessions()
    }
}


pub open spec fn asks_removal(s: SweepStepV) -> bool {
    s matches SweepStepV::Ask(_, q) && (q is RemoveFile || q is RemoveDir)
}

proof fn lemma_adv_children_no_removal(m: CacheSweepV)
    ensures
        !asks_removal(adv_children(m)),
    decreases m.children.len() - m.c_next,
{
    if !(m.c_next < 0 || m.e_next < 0 || m.e_next >= m.entries.len()) && m.c_next < m.children.len() {
        if let Some(k) = m.children[m.c_next].kind {
            if !(k.is_file && !k.is_symlink) {
                lemma_adv_children_no_removal(CacheSweepV { c_next: m.c_next + 1, ..m });
            }
        }
    }
}

proof fn lemma_adv_entries_no_removal(m: CacheSweepV)
    ensures
        !asks_removal(adv_entries(m)),
    decreases m.entries.len() - m.e_next,
{
    if !(m.e_next < 0 || m.s_next < 0 || m.s_next >= m.sessions.len()) && m.e_next < m.entries.len() {
        if let Some(k) = m.entries[m.e_next].kind {
            if k.is_symlink || (!k.is_file && !k.is_dir) {
                lemma_adv_entries_no_removal(CacheSweepV { e_next: m.e_next + 1, ..m });
            }
        }
    }
}

proof fn lemma_adv_sessions_no_removal(m: CacheSweepV)
    ensures
        !asks_removal(adv_sessions(m)),
    decreases m.sessions.len() - m.s_next,
{
    if m.s_next >= 0 && m.s_next < m.sessions.len() {
        if let Some(k) = m.sessions[m.s_next].kind {
            if k.is_symlink || !k.is_dir {
                lemma_adv_sessions_no_removal(CacheSweepV { s_next: m.s_next + 1, ..m });
            }
        }
    }
}

proof fn lemma_advance_removes_nothing(m: CacheSweepV)
    ensures
        !asks_removal(next_entry_spec(m)),
        !asks_removal(next_child_spec(m)),
        !asks_removal(next_session_spec(m)),
        forall|l: ListingV| !asks_removal(#[trigger] adv_sessions(CacheSweepV { sessions: l.items, s_next: 0, s_complete: l.complete, ..m })),
        forall|l: ListingV| !asks_removal(#[trigger] adv_entries(CacheSweepV { entries: l.items, e_next: 0, e_complete: l.complete, ..m })),
        forall|l: ListingV| !asks_removal(#[trigger] adv_children(CacheSweepV { children: l.items, c_next: 0, c_complete: l.complete, ..m })),
{
    lemma_adv_entries_no_removal(CacheSweepV { e_next: m.e_next + 1, ..m });
    lemma_adv_children_no_removal(CacheSweepV { c_next: m.c_next + 1, ..m });
    lemma_adv_sessions_no_removal(CacheSweepV { s_next: m.s_next + 1, ..m });
    assert forall|l: ListingV| !asks_removal(#[trigger] adv_sessions(CacheSweepV { sessions: l.items, s_next: 0, s_complete: l.complete, ..m })) by {
        lemma_adv_sessions_no_removal(CacheSweepV { sessions: l.items, s_next: 0, s_complete: l.complete, ..m });
    }
    assert forall|l: ListingV| !asks_removal(#[trigger] adv_entries(CacheSweepV { entries: l.items, e_next: 0, e_complete: l.complete, ..m })) by {
        lemma_adv_entries_no_removal(CacheSweepV { entries: l.items, e_next: 0, e_complete: l.complete, ..m });
    }
    assert forall|l: ListingV| !asks_removal(#[trigger] adv_children(CacheSweepV { children: l.items, c_next: 0, c_complete: l.complete, ..m })) by {
        lemma_adv_children_no_removal(CacheSweepV { children: l.items, c_next: 0, c_complete: l.complete, ..m });
    }
}

/// A step of a sweep removes a file only when its metadata just showed it
/// expired, and a directory only when a listing just showed it empty.
pub proof fn lemma_sweep_removes_only_expired_or_empty(m: CacheSweepV, r: FsReplyV)
    ensures
        sweep_step_spec(m, r) matches SweepStepV::Ask(_, FsRequestV::RemoveFile(_)) ==> meta_expired(
            reply_meta(r),
            m.now_ns,
        ) && (m.phase is EntryAge || m.phase is ChildAge),
        sweep_step_spec(m, r) matches SweepStepV::Ask(_, FsRequestV::RemoveDir(_)) ==> listed_empty(r) && (
        m.phase is EntryRecheck || m.phase is SessionRecheck),
{
    lemma_advance_removes_nothing(m);
    let l = reply_listing(r);
    assert(!asks_removal(adv_sessions(CacheSweepV { sessions: l.items, s_next: 0, s_complete: l.complete, ..m })));
    assert(!asks_removal(adv_entries(CacheSweepV { entries: l.items, e_next: 0, e_complete: l.complete, ..m })));
    assert(!asks_removal(adv_children(CacheSweepV { children: l.items, c_next: 0, c_complete: l.complete, ..m })));
}
} // verus!
