//! Chunked attachment uploads: the bookkeeping of the uploads in progress,
//! the checks each request passes, and the steps that commit a finished
//! upload into the cache.

use vstd::prelude::*;
use crate::encoding::{b64_decode, decode_standard};
use crate::files::{
    FileAttachAbortRequest, FileAttachChunkRequest, MAX_ACTIVE_ATTACHMENT_UPLOADS,
    MAX_ATTACHMENT_CHUNK_BASE64_BYTES, MAX_ATTACHMENT_CHUNK_BYTES,
};
use crate::hashing::{sha256_fed, sha256_update, Sha256State};
use crate::text::same_text;

verus! {

/// Which upload protocol a begin request came by.
#[derive(Clone, Copy)]
pub enum AttachmentKind {
    /// Images only, up to 5 MiB, validated on commit.
    LegacyImage,
    /// Any file, up to 20 MiB, kept under its own name.
    AnyFile,
}

/// An upload in progress.
pub struct PendingFileAttachment {
    pub upload_id: String,
    pub cache_root: String,
    pub parent_dir: String,
    pub temporary_path: String,
    pub target_path: String,
    pub cleanup_dir: Option<String>,
    pub expected_size: u64,
    pub written: u64,
    pub expected_sha256: String,
    pub hasher: Sha256State,
    pub validate_image: bool,
}

#[verifier::ext_equal]
pub struct PendingV {
    pub cache_root: Seq<char>,
    pub parent_dir: Seq<char>,
    pub temporary_path: Seq<char>,
    pub target_path: Seq<char>,
    pub cleanup_dir: Option<Seq<char>>,
    pub expected_size: u64,
    pub written: u64,
    pub expected_sha256: Seq<char>,
    /// The bytes accepted so far, as the hasher has been fed them.
    pub fed: Seq<u8>,
    pub validate_image: bool,
}

impl View for PendingFileAttachment {
    type V = PendingV;

    open spec fn view(&self) -> PendingV {
        PendingV {
            cache_root: self.cache_root@,
            parent_dir: self.parent_dir@,
            temporary_path: self.temporary_path@,
            target_path: self.target_path@,
            cleanup_dir: match self.cleanup_dir {
                Some(d) => Some(d@),
                None => None,
            },
            expected_size: self.expected_size,
            written: self.written,
            expected_sha256: self.expected_sha256@,
            fed: sha256_fed(self.hasher),
            validate_image: self.validate_image,
        }
    }
}

spec fn has_id(s: Seq<PendingFileAttachment>, k: Seq<char>) -> bool {
    exists|i: int| 0 <= i < s.len() && s[i].upload_id@ == k
}

spec fn view_of(s: Seq<PendingFileAttachment>) -> Map<Seq<char>, PendingV> {
    Map::new(
        |k: Seq<char>| has_id(s, k),
        |k: Seq<char>| s[choose|i: int| 0 <= i < s.len() && s[i].upload_id@ == k]@,
    )
}

spec fn unique_ids(s: Seq<PendingFileAttachment>) -> bool {
    forall|i: int, j: int| 0 <= i < j < s.len() ==> s[i].upload_id@ != s[j].upload_id@
}

proof fn lemma_view_of_at(s: Seq<PendingFileAttachment>, i: int)
    requires
        unique_ids(s),
        0 <= i < s.len(),
    ensures
        view_of(s).contains_key(s[i].upload_id@),
        view_of(s)[s[i].upload_id@] == s[i]@,
{
    let k = s[i].upload_id@;
    assert(has_id(s, k));
    let c = choose|j: int| 0 <= j < s.len() && s[j].upload_id@ == k;
    if c != i {
        if c < i {
            assert(s[c].upload_id@ != s[i].upload_id@);
        } else {
            assert(s[i].upload_id@ != s[c].upload_id@);
        }
    }
}

proof fn lemma_view_of_remove(s: Seq<PendingFileAttachment>, i: int)
    requires
        unique_ids(s),
        0 <= i < s.len(),
    ensures
        unique_ids(s.remove(i)),
        view_of(s.remove(i)) == view_of(s).remove(s[i].upload_id@),
{
    let t = s.remove(i);
    let k0 = s[i].upload_id@;
    assert forall|a: int, b: int| 0 <= a < b < t.len() implies t[a].upload_id@ != t[b].upload_id@ by {
        let a2 = if a < i { a } else { a + 1 };
        let b2 = if b < i { b } else { b + 1 };
        assert(t[a] == s[a2] && t[b] == s[b2]);
    }
    assert forall|k: Seq<char>| #[trigger] has_id(t, k) <==> (has_id(s, k) && k != k0) by {
        if has_id(t, k) {
            let a = choose|a: int| 0 <= a < t.len() && t[a].upload_id@ == k;
            let a2 = if a < i { a } else { a + 1 };
            assert(t[a] == s[a2]);
            if k == k0 {
                if a2 < i {
                    assert(s[a2].upload_id@ != s[i].upload_id@);
                } else {
                    assert(s[i].upload_id@ != s[a2].upload_id@);
                }
            }
        }
        if has_id(s, k) && k != k0 {
            let a = choose|a: int| 0 <= a < s.len() && s[a].upload_id@ == k;
            assert(a != i);
            let a2 = if a < i { a } else { a - 1 };
            assert(t[a2] == s[a]);
        }
    }
    assert forall|k: Seq<char>| #[trigger] view_of(t).contains_key(k) implies view_of(t)[k] == view_of(s)[k] by {
        let a = choose|a: int| 0 <= a < t.len() && t[a].upload_id@ == k;
        let a2 = if a < i { a } else { a + 1 };
        assert(t[a] == s[a2]);
        lemma_view_of_at(t, a);
        lemma_view_of_at(s, a2);
    }
    assert(view_of(t) =~= view_of(s).remove(k0));
}

proof fn lemma_view_of_insert(s: Seq<PendingFileAttachment>, i: int, p: PendingFileAttachment)
    requires
        unique_ids(s),
        0 <= i <= s.len(),
        !has_id(s, p.upload_id@),
    ensures
        unique_ids(s.insert(i, p)),
        view_of(s.insert(i, p)) == view_of(s).insert(p.upload_id@, p@),
{
    let t = s.insert(i, p);
    let k0 = p.upload_id@;
    assert forall|a: int, b: int| 0 <= a < b < t.len() implies t[a].upload_id@ != t[b].upload_id@ by {
        if a == i {
            let b2 = b - 1;
            assert(t[b] == s[b2]);
        } else if b == i {
            assert(t[a] == s[a]);
        } else {
            let a2 = if a < i { a } else { a - 1 };
            let b2 = if b < i { b } else { b - 1 };
            assert(t[a] == s[a2] && t[b] == s[b2]);
        }
    }
    assert forall|k: Seq<char>| #[trigger] has_id(t, k) <==> (has_id(s, k) || k == k0) by {
        if has_id(t, k) {
            let a = choose|a: int| 0 <= a < t.len() && t[a].upload_id@ == k;
            if a != i {
                let a2 = if a < i { a } else { a - 1 };
                assert(t[a] == s[a2]);
            }
        }
        if has_id(s, k) {
            let a = choose|a: int| 0 <= a < s.len() && s[a].upload_id@ == k;
            let a2 = if a < i { a } else { a + 1 };
            assert(t[a2] == s[a]);
        }
        if k == k0 {
            assert(t[i] == p);
        }
    }
    assert forall|k: Seq<char>| #[trigger] view_of(t).contains_key(k) implies view_of(t)[k] == view_of(s).insert(k0, p@)[k] by {
        let a = choose|a: int| 0 <= a < t.len() && t[a].upload_id@ == k;
        lemma_view_of_at(t, a);
        if a != i {
            let a2 = if a < i { a } else { a - 1 };
            assert(t[a] == s[a2]);
            lemma_view_of_at(s, a2);
        }
    }
    assert(view_of(t) =~= view_of(s).insert(k0, p@));
}

/// The uploads in progress, by upload id.
pub struct FileAttachmentUploads {
    active: Vec<PendingFileAttachment>,
}

pub open spec fn pending_ok(p: PendingV) -> bool {
    p.written <= p.expected_size && p.fed.len() == p.written
}

/// What always holds of the uploads in progress: there are at most 16, and
/// each has accepted exactly the bytes its hasher was fed, never more than
/// it declared.
pub open spec fn uploads_ok(m: Map<Seq<char>, PendingV>) -> bool {
    &&& m.dom().finite()
    &&& m.dom().len() <= MAX_ACTIVE_ATTACHMENT_UPLOADS
    &&& forall|k: Seq<char>| #[trigger] m.contains_key(k) ==> pending_ok(m[k])
}

impl View for FileAttachmentUploads {
    type V = Map<Seq<char>, PendingV>;

    closed spec fn view(&self) -> Map<Seq<char>, PendingV> {
        view_of(self.active@)
    }
}

impl FileAttachmentUploads {
    #[verifier::type_invariant]
    closed spec fn wf(self) -> bool {
        &&& self.active@.len() <= MAX_ACTIVE_ATTACHMENT_UPLOADS
        &&& unique_ids(self.active@)
        &&& forall|i: int| 0 <= i < self.active@.len() ==> pending_ok(#[trigger] self.active@[i]@)
    }

    /// How many uploads are in progress.
    pub closed spec fn count(&self) -> nat {
        self.active@.len()
    }

    proof fn lemma_view_at(&self, i: int)
        requires
            self.wf(),
            0 <= i < self.active@.len(),
        ensures
            self@.contains_key(self.active@[i].upload_id@),
            self@[self.active@[i].upload_id@] == self.active@[i]@,
    {
        lemma_view_of_at(self.active@, i);
    }

    proof fn lemma_uploads_ok(&self)
        requires
            self.wf(),
        ensures
            uploads_ok(self@),
    {
        assert forall|k: Seq<char>| #[trigger] self@.contains_key(k) implies pending_ok(self@[k]) by {
            let i = choose|i: int| 0 <= i < self.active@.len() && self.active@[i].upload_id@ == k;
            self.lemma_view_at(i);
        }
        self.lemma_dom_len();
        assert(self@.dom().len() <= MAX_ACTIVE_ATTACHMENT_UPLOADS);
    }

    proof fn lemma_dom_len(&self)
        requires
            self.wf(),
        ensures
            self@.dom().finite(),
            self@.dom().len() == self.active@.len(),
    {
        let ids = self.active@.map_values(|p: PendingFileAttachment| p.upload_id@);
        assert(ids.no_duplicates()) by {
            assert forall|i: int, j: int| 0 <= i < ids.len() && 0 <= j < ids.len() && i != j implies ids[i] != ids[j] by {
                if i < j {
                } else {
                    assert(self.active@[j].upload_id@ != self.active@[i].upload_id@);
                }
            }
        }
        assert(self@.dom() =~= ids.to_set()) by {
            assert forall|k: Seq<char>| self@.dom().contains(k) <==> ids.to_set().contains(k) by {
                if ids.to_set().contains(k) {
                    let i = choose|i: int| 0 <= i < ids.len() && ids[i] == k;
                    assert(self.active@[i].upload_id@ == k);
                }
                if self@.dom().contains(k) {
                    let i = choose|i: int| 0 <= i < self.active@.len() && self.active@[i].upload_id@ == k;
                    assert(ids[i] == k);
                }
            }
        }
        ids.unique_seq_to_set();
    }

    pub fn new() -> (r: Self)
        ensures
            r@ == Map::<Seq<char>, PendingV>::empty(),
            uploads_ok(r@),
    {
        let r = FileAttachmentUploads { active: Vec::new() };
        assert(r@ =~= Map::<Seq<char>, PendingV>::empty());
        r
    }

    fn position(&self, upload_id: &str) -> (r: Option<usize>)
        ensures
            match r {
                Some(i) => i < self.active@.len() && self.active@[i as int].upload_id@ == upload_id@,
                None => forall|i: int| 0 <= i < self.active@.len() ==> self.active@[i].upload_id@ != upload_id@,
            },
    {
        let mut i: usize = 0;
        while i < self.active.len()
            invariant
                i <= self.active@.len(),
                forall|k: int| 0 <= k < i ==> self.active@[k].upload_id@ != upload_id@,
            decreases self.active.len() - i,
        {
            if same_text(self.active[i].upload_id.as_str(), upload_id) {
                return Some(i);
            }
            i = i + 1;
        }
        None
    }

    /// How many uploads are in progress.
    pub fn len(&self) -> (n: usize)
        ensures
            n == self@.dom().len(),
            uploads_ok(self@),
    {
        proof {
            use_type_invariant(self);
            self.lemma_dom_len();
            self.lemma_uploads_ok();
        }
        self.active.len()
    }

    /// Whether an upload with this id is in progress.
    pub fn contains(&self, upload_id: &str) -> (r: bool)
        ensures
            r == self@.contains_key(upload_id@),
    {
        proof {
            use_type_invariant(self);
        }
        match self.position(upload_id) {
            Some(i) => {
                proof {
                    self.lemma_view_at(i as int);
                }
                true
            },
            None => false,
        }
    }
}


/// A chunk that passed the checks of `append`: the bytes to write at
/// the end of the upload's temporary file.
pub struct ChunkWrite {
    pub upload_id: String,
    pub temporary_path: String,
    pub offset: u64,
    pub data: Vec<u8>,
    pub next_size: u64,
}

/// What is left on disk of an upload that is given up: its temporary file
/// and, for an any-file upload, its private directory.
pub struct UploadLeftovers {
    pub temporary_path: String,
    pub cleanup_dir: Option<String>,
}

/// `l` is what one of the uploads in `m` left on disk.
pub open spec fn left_by(m: Map<Seq<char>, PendingV>, l: (Seq<char>, Option<Seq<char>>)) -> bool {
    exists|k: Seq<char>| #[trigger] m.contains_key(k) && l == leftovers_of(m[k])
}

pub open spec fn leftovers_of(p: PendingV) -> (Seq<char>, Option<Seq<char>>) {
    (p.temporary_path, p.cleanup_dir)
}

impl UploadLeftovers {
    pub open spec fn paths(&self) -> (Seq<char>, Option<Seq<char>>) {
        (
            self.temporary_path@,
            match self.cleanup_dir {
                Some(d) => Some(d@),
                None => None,
            },
        )
    }
}

/// The checks a chunk passes against the upload it names: the decoded bytes
/// and the size the upload reaches with them, or the error the first failed
/// check gives.
pub open spec fn chunk_check_spec(
    m: Map<Seq<char>, PendingV>,
    upload_id: Seq<char>,
    offset: u64,
    data: Seq<u8>,
) -> Result<u64, Seq<char>> {
    if !m.contains_key(upload_id) {
        Err("attachment_upload_not_found"@)
    } else if offset != m[upload_id].written {
        Err("attachment_chunk_offset_invalid"@)
    } else if m[upload_id].written + data.len() > m[upload_id].expected_size {
        Err("attachment_size_mismatch"@)
    } else {
        Ok((m[upload_id].written + data.len()) as u64)
    }
}

/// What `append` decides for a chunk request: the decoded bytes, or the
/// error of the first check they fail.
pub open spec fn append_spec(
    m: Map<Seq<char>, PendingV>,
    upload_id: Seq<char>,
    offset: u64,
    data_base64: Seq<char>,
) -> Result<Seq<u8>, Seq<char>> {
    let n = vstd::utf8::encode_utf8(data_base64).len();
    if data_base64.len() == 0 || n > MAX_ATTACHMENT_CHUNK_BASE64_BYTES {
        Err("attachment_chunk_invalid"@)
    } else {
        match b64_decode(data_base64) {
            None => Err("attachment_chunk_invalid"@),
            Some(data) => if data.len() == 0 || data.len() > MAX_ATTACHMENT_CHUNK_BYTES {
                Err("attachment_chunk_invalid"@)
            } else {
                match chunk_check_spec(m, upload_id, offset, data) {
                    Ok(_) => Ok(data),
                    Err(e) => Err(e),
                }
            },
        }
    }
}

fn vec_u8_copy(v: &Vec<u8>) -> (r: Vec<u8>)
    ensures
        r@ == v@,
{
    let mut out: Vec<u8> = Vec::new();
    let mut i: usize = 0;
    while i < v.len()
        invariant
            i <= v@.len(),
            out@ == v@.take(i as int),
        decreases v.len() - i,
    {
        out.push(v[i]);
        proof {
            assert(v@.take(i + 1) =~= v@.take(i as int).push(v@[i as int]));
        }
        i = i + 1;
    }
    proof {
        assert(v@.take(v@.len() as int) =~= v@);
    }
    out
}

fn copy_text(s: &String) -> (r: String)
    ensures
        r@ == s@,
{
    crate::text::copy_string(s.as_str())
}

impl FileAttachmentUploads {
    proof fn lemma_view_replace(s: Seq<PendingFileAttachment>, i: int, p: PendingFileAttachment)
        requires
            unique_ids(s),
            0 <= i < s.len(),
            s[i].upload_id@ == p.upload_id@,
        ensures
            unique_ids(s.remove(i).insert(i, p)),
            view_of(s.remove(i).insert(i, p)) == view_of(s).insert(p.upload_id@, p@),
    {
        let t = s.remove(i);
        lemma_view_of_remove(s, i);
        assert(!has_id(t, p.upload_id@)) by {
            if has_id(t, p.upload_id@) {
                let a = choose|a: int| 0 <= a < t.len() && t[a].upload_id@ == p.upload_id@;
                assert(!view_of(t).contains_key(p.upload_id@));
                assert(view_of(t).contains_key(p.upload_id@));
            }
        }
        lemma_view_of_insert(t, i, p);
        assert(view_of(s).remove(p.upload_id@).insert(p.upload_id@, p@) =~= view_of(s).insert(
            p.upload_id@,
            p@,
        ));
    }

    /// Adds an upload, or replaces the one with the same id; refused (and
    /// nothing changed) when 16 others are in progress.
    pub fn insert_pending(&mut self, p: PendingFileAttachment) -> (ok: bool)
        requires
            pending_ok(p@),
        ensures
            ok == (old(self)@.contains_key(p.upload_id@) || old(self)@.dom().len()
                < MAX_ACTIVE_ATTACHMENT_UPLOADS),
            ok ==> final(self)@ == old(self)@.insert(p.upload_id@, p@),
            !ok ==> final(self)@ == old(self)@,
            uploads_ok(final(self)@),
    {
        proof {
            use_type_invariant(&*self);
            self.lemma_dom_len();
        }
        let ghost s = self.active@;
        match self.position(p.upload_id.as_str()) {
            Some(i) => {
                proof {
                    self.lemma_view_at(i as int);
                    Self::lemma_view_replace(s, i as int, p);
                }
                let mut v: Vec<PendingFileAttachment> = Vec::new();
                std::mem::swap(&mut v, &mut self.active);
                let _old = v.remove(i);
                v.insert(i, p);
                proof {
                    assert(v@ =~= s.remove(i as int).insert(i as int, p));
                    assert forall|k: int| 0 <= k < v@.len() implies pending_ok(#[trigger] v@[k]@) by {
                        if k != i {
                            assert(v@[k] == s[k]);
                        }
                    }
                }
                self.active = v;
                proof {
                    self.lemma_uploads_ok();
                }
                true
            },
            None => {
                if self.active.len() >= MAX_ACTIVE_ATTACHMENT_UPLOADS {
                    proof {
                        self.lemma_uploads_ok();
                    }
                    return false;
                }
                proof {
                    assert(!has_id(s, p.upload_id@));
                    lemma_view_of_insert(s, s.len() as int, p);
                    assert(s.insert(s.len() as int, p) =~= s.push(p));
                }
                let mut v: Vec<PendingFileAttachment> = Vec::new();
                std::mem::swap(&mut v, &mut self.active);
                v.push(p);
                proof {
                    assert forall|k: int| 0 <= k < v@.len() implies pending_ok(#[trigger] v@[k]@) by {
                        if k < s.len() {
                            assert(v@[k] == s[k]);
                        }
                    }
                }
                self.active = v;
                proof {
                    self.lemma_uploads_ok();
                }
                true
            },
        }
    }

    /// Removes the upload with this id and hands it back.
    pub fn take(&mut self, upload_id: &str) -> (r: Option<PendingFileAttachment>)
        ensures
            match r {
                Some(p) => old(self)@.contains_key(upload_id@) && p.upload_id@ == upload_id@
                    && p@ == old(self)@[upload_id@] && pending_ok(p@) && final(self)@ == old(
                    self,
                )@.remove(upload_id@),
                None => !old(self)@.contains_key(upload_id@) && final(self)@ == old(self)@,
            },
            uploads_ok(final(self)@),
    {
        proof {
            use_type_invariant(&*self);
        }
        let ghost s = self.active@;
        match self.position(upload_id) {
            Some(i) => {
                proof {
                    self.lemma_view_at(i as int);
                    lemma_view_of_remove(s, i as int);
                }
                let mut v: Vec<PendingFileAttachment> = Vec::new();
                std::mem::swap(&mut v, &mut self.active);
                let p = v.remove(i);
                proof {
                    assert(v@ =~= s.remove(i as int));
                    assert forall|k: int| 0 <= k < v@.len() implies pending_ok(#[trigger] v@[k]@) by {
                        let k2 = if k < i { k } else { k + 1 };
                        assert(v@[k] == s[k2]);
                    }
                }
                self.active = v;
                proof {
                    self.lemma_uploads_ok();
                }
                Some(p)
            },
            None => {
                proof {
                    if self@.contains_key(upload_id@) {
                        let i = choose|i: int|
                            0 <= i < self.active@.len() && self.active@[i].upload_id@ == upload_id@;
                    }
                    self.lemma_uploads_ok();
                }
                None
            },
        }
    }

    /// The checks a chunk request passes before anything is written, and
    /// the bytes to write; `record_chunk` records them once written.
    pub fn append(&self, request: &FileAttachChunkRequest) -> (r: Result<ChunkWrite, String>)
        ensures
            match append_spec(self@, request.upload_id@, request.offset, request.data_base64@) {
                Ok(data) => r matches Ok(w) && w.data@ == data && w.upload_id@
                    == request.upload_id@ && w.offset == request.offset && w.temporary_path@
                    == self@[request.upload_id@].temporary_path && chunk_check_spec(
                    self@,
                    request.upload_id@,
                    request.offset,
                    data,
                ) == Ok::<u64, Seq<char>>(w.next_size),
                Err(e) => r matches Err(m) && m@ == e,
            },
    {
        proof {
            use_type_invariant(self);
        }
        let text = request.data_base64.as_str();
        if text.is_empty() || text.as_bytes().len() > MAX_ATTACHMENT_CHUNK_BASE64_BYTES {
            return Err(String::from_str("attachment_chunk_invalid"));
        }
        let data = match decode_standard(text) {
            Some(d) => d,
            None => return Err(String::from_str("attachment_chunk_invalid")),
        };
        if data.len() == 0 || data.len() > MAX_ATTACHMENT_CHUNK_BYTES {
            return Err(String::from_str("attachment_chunk_invalid"));
        }
        let i = match self.position(request.upload_id.as_str()) {
            Some(i) => i,
            None => {
                proof {
                    if self@.contains_key(request.upload_id@) {
                        let i = choose|i: int|
                            0 <= i < self.active@.len() && self.active@[i].upload_id@
                                == request.upload_id@;
                    }
                }
                return Err(String::from_str("attachment_upload_not_found"));
            },
        };
        proof {
            self.lemma_view_at(i as int);
        }
        let p = &self.active[i];
        if request.offset != p.written {
            return Err(String::from_str("attachment_chunk_offset_invalid"));
        }
        if data.len() as u64 > p.expected_size - p.written {
            return Err(String::from_str("attachment_size_mismatch"));
        }
        let next_size = p.written + data.len() as u64;
        Ok(
            ChunkWrite {
                upload_id: copy_text(&request.upload_id),
                temporary_path: copy_text(&p.temporary_path),
                offset: request.offset,
                data,
                next_size,
            },
        )
    }

    /// Records that `data` was written at `offset` of the upload: the hasher
    /// is fed the bytes and the written size grows by their length. The same
    /// checks as `append` guard it.
    pub fn record_chunk(&mut self, upload_id: &str, offset: u64, data: &Vec<u8>) -> (r: Result<
        u64,
        String,
    >)
        ensures
            match chunk_check_spec(old(self)@, upload_id@, offset, data@) {
                Ok(n) => r == Ok::<u64, String>(n) && final(self)@ == old(self)@.insert(
                    upload_id@,
                    PendingV { written: n, fed: old(self)@[upload_id@].fed + data@, ..old(self)@[upload_id@] },
                ),
                Err(e) => r matches Err(m) && m@ == e && final(self)@ == old(self)@,
            },
            uploads_ok(final(self)@),
    {
        proof {
            use_type_invariant(&*self);
        }
        let ghost s = self.active@;
        let i = match self.position(upload_id) {
            Some(i) => i,
            None => {
                proof {
                    if self@.contains_key(upload_id@) {
                        let i = choose|i: int|
                            0 <= i < self.active@.len() && self.active@[i].upload_id@ == upload_id@;
                    }
                    self.lemma_uploads_ok();
                }
                return Err(String::from_str("attachment_upload_not_found"));
            },
        };
        proof {
            self.lemma_view_at(i as int);
        }
        if offset != self.active[i].written {
            proof {
                self.lemma_uploads_ok();
            }
            return Err(String::from_str("attachment_chunk_offset_invalid"));
        }
        if data.len() as u64 > self.active[i].expected_size - self.active[i].written {
            proof {
                self.lemma_uploads_ok();
            }
            return Err(String::from_str("attachment_size_mismatch"));
        }
        let next = self.active[i].written + data.len() as u64;
        let mut v: Vec<PendingFileAttachment> = Vec::new();
        std::mem::swap(&mut v, &mut self.active);
        let mut p = v.remove(i);
        sha256_update(&mut p.hasher, data.as_slice());
        p.written = next;
        proof {
            assert(p@ =~= PendingV { written: next, fed: s[i as int]@.fed + data@, ..s[i as int]@ });
            assert(pending_ok(p@));
            Self::lemma_view_replace(s, i as int, p);
        }
        v.insert(i, p);
        proof {
            assert(v@ =~= s.remove(i as int).insert(i as int, p));
            assert forall|k: int| 0 <= k < v@.len() implies pending_ok(#[trigger] v@[k]@) by {
                if k != i {
                    assert(v@[k] == s[k]);
                }
            }
        }
        self.active = v;
        proof {
            self.lemma_uploads_ok();
        }
        Ok(next)
    }

    /// Gives up the named upload: it leaves the uploads in progress and what
    /// it left on disk is handed back for removal; `None` when no upload has
    /// that id.
    pub fn abort(&mut self, request: &FileAttachAbortRequest) -> (r: Option<UploadLeftovers>)
        ensures
            match r {
                Some(l) => old(self)@.contains_key(request.upload_id@) && l.paths() == leftovers_of(
                    old(self)@[request.upload_id@],
                ) && final(self)@ == old(self)@.remove(request.upload_id@),
                None => !old(self)@.contains_key(request.upload_id@) && final(self)@ == old(self)@,
            },
            uploads_ok(final(self)@),
    {
        match self.take(request.upload_id.as_str()) {
            Some(p) => Some(UploadLeftovers { temporary_path: p.temporary_path, cleanup_dir: p.cleanup_dir }),
            None => None,
        }
    }

    /// Gives up every upload in progress, handing back what each left on disk.
    pub fn drain(&mut self) -> (r: Vec<UploadLeftovers>)
        ensures
            final(self)@ == Map::<Seq<char>, PendingV>::empty(),
            r@.len() == old(self)@.dom().len(),
            forall|i: int| 0 <= i < r@.len() ==> left_by(old(self)@, #[trigger] r@[i].paths()),
            forall|k: Seq<char>| #[trigger] old(self)@.contains_key(k) ==> exists|i: int|
                0 <= i < r@.len() && r@[i].paths() == leftovers_of(old(self)@[k]),
    {
        proof {
            use_type_invariant(&*self);
            self.lemma_dom_len();
        }
        let ghost s = self.active@;
        let mut out: Vec<UploadLeftovers> = Vec::new();
        let mut v: Vec<PendingFileAttachment> = Vec::new();
        std::mem::swap(&mut v, &mut self.active);
        proof {
            assert(s.take(s.len() as int) =~= s);
        }
        while v.len() > 0
            invariant
                v@.len() + out@.len() == s.len(),
                v@ == s.take(v@.len() as int),
                forall|i: int| 0 <= i < out@.len() ==> (#[trigger] out@[i]).paths() == leftovers_of(
                    s[s.len() - 1 - i]@,
                ),
            decreases v.len(),
        {
            let ghost n = v@.len();
            let p = v.pop().unwrap();
            proof {
                assert(p == s[n - 1]);
                assert(v@ =~= s.take(n - 1));
            }
            out.push(UploadLeftovers { temporary_path: p.temporary_path, cleanup_dir: p.cleanup_dir });
        }
        proof {
            assert(self.active@ =~= Seq::<PendingFileAttachment>::empty());
            assert(self@ =~= Map::<Seq<char>, PendingV>::empty());
            assert(s == old(self).active@);
            assert forall|i: int| 0 <= i < out@.len() implies left_by(old(self)@, #[trigger] out@[i].paths()) by {
                let j = s.len() - 1 - i;
                lemma_view_of_at(s, j);
                let k = s[j].upload_id@;
                assert(old(self)@.contains_key(k));
                assert(out@[i].paths() == leftovers_of(old(self)@[k]));
            }
            assert forall|k: Seq<char>| #[trigger] view_of(s).contains_key(k) implies exists|i: int|
                0 <= i < out@.len() && out@[i].paths() == leftovers_of(view_of(s)[k]) by {
                let j = choose|j: int| 0 <= j < s.len() && s[j].upload_id@ == k;
                lemma_view_of_at(s, j);
                let i = s.len() - 1 - j;
                assert(out@[i].paths() == leftovers_of(s[j]@));
            }
            assert(s == old(self).active@);
            assert(view_of(s) == old(self)@);
        }
        out
    }
}



impl Default for FileAttachmentUploads {
    fn default() -> (r: Self)
        ensures
            r@ == Map::<Seq<char>, PendingV>::empty(),
    {
        Self::new()
    }
}

} // verus!
