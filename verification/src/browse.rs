//! Listing a directory under a root, reading a file for preview, and
//! searching the tree below a root by name and content.

use vstd::prelude::*;
use vstd::utf8::{decode_utf8, encode_utf8, valid_utf8};
use crate::encoding::{b64_encode, base64_encode_impl};
use crate::files::{
    image_mime, image_mime_spec, lemma_image_mime_table, is_image, is_video, lower_extension, image_extension,
    video_extension, FileListRequest, FileReadRequest, FileSearchRequest, RemoteFileEntry,
    RemoteFileEntryV, RemoteFileRead, MAX_IMAGE_PIXELS, MAX_IMAGE_READ_BYTES, MAX_ENTRIES,
    MAX_SEARCH_DEPTH, MAX_SEARCH_FILE_BYTES, MAX_SEARCH_RESULTS, MAX_TEXT_READ_BYTES,
    MAX_WALK_FILES,
};
use crate::fsproto::{
    items_view, reply_bytes, reply_dimensions, reply_listing, reply_meta, reply_path, take_bytes,
    take_dimensions, take_listing, take_meta, take_path, DirItem, DirItemV, EntryKind, FileMeta,
    FsReply, FsReplyV, FsRequest, FsRequestV, MetaReply,
};
use crate::paths::{
    check_relative_text, check_root_text, extension, extension_spec, join, join_spec,
    path_within, relative_path, relative_spec, relative_text_ok, root_text_ok, within,
};
use crate::text::{
    ascii_lower, chars_lt, chars_of, concat, contains_text, copy_string, text_contains, text_lt,
    to_ascii_lower, to_lower, trim, trimmed, unicode_lower, utf8_text, same_text,
};

verus! {

/// One browsing operation, with what its request carries.
pub enum BrowseOp {
    List { rel: String },
    Read { rel: String },
    /// `query` is already trimmed and lower-cased.
    Search { query: String, content: bool },
}

pub enum BrowseOpV {
    List { rel: Seq<char> },
    Read { rel: Seq<char> },
    Search { query: Seq<char>, content: bool },
}

impl View for BrowseOp {
    type V = BrowseOpV;

    open spec fn view(&self) -> BrowseOpV {
        match self {
            BrowseOp::List { rel } => BrowseOpV::List { rel: rel@ },
            BrowseOp::Read { rel } => BrowseOpV::Read { rel: rel@ },
            BrowseOp::Search { query, content } => BrowseOpV::Search { query: query@, content: *content },
        }
    }
}

/// Where a browsing operation stands: the reply it waits for.
#[derive(Clone, Copy)]
pub enum BrowsePhase {
    /// The root, canonicalized.
    RootCanon,
    /// Whether the root is a directory.
    RootIsDir,
    /// The relative path, joined to the root and canonicalized.
    RelCanon,
    /// Whether the directory to list is one.
    DirMeta,
    /// The directory's entries.
    Listed,
    /// The metadata of the file to read.
    TargetMeta,
    /// The dimensions of the image to read.
    ReadDims,
    /// The bytes of the file.
    ReadContent,
    /// The entries of a directory the search walks.
    WalkRead,
    /// The bytes of a file whose content is searched.
    ContentRead,
}

/// A directory the search walks: its entries and how far it has come.
pub struct SearchFrame {
    pub items: Vec<DirItem>,
    pub next: usize,
    pub complete: bool,
}

pub struct SearchFrameV {
    pub items: Seq<DirItemV>,
    pub next: int,
    pub complete: bool,
}

impl View for SearchFrame {
    type V = SearchFrameV;

    open spec fn view(&self) -> SearchFrameV {
        SearchFrameV { items: items_view(self.items@), next: self.next as int, complete: self.complete }
    }
}

pub open spec fn frames_view(f: Seq<SearchFrame>) -> Seq<SearchFrameV> {
    f.map_values(|x: SearchFrame| x@)
}

pub open spec fn entries_view(e: Seq<RemoteFileEntry>) -> Seq<RemoteFileEntryV> {
    e.map_values(|x: RemoteFileEntry| x@)
}

/// A browsing operation in progress.
pub struct Browse {
    pub op: BrowseOp,
    pub phase: BrowsePhase,
    pub root: String,
    /// The directory to list or the file to read, canonical.
    pub path: String,
    pub file_len: u64,
    pub modified_ms: Option<i64>,
    pub image: bool,
    /// The directories the search is walking, innermost last.
    pub frames: Vec<SearchFrame>,
    /// How many entries the search has looked at.
    pub visited: usize,
    pub results: Vec<RemoteFileEntry>,
    /// The entry whose content is being read, and whether its name matched.
    pub cur: Option<DirItem>,
    pub name_match: bool,
}

pub struct BrowseV {
    pub op: BrowseOpV,
    pub phase: BrowsePhase,
    pub root: Seq<char>,
    pub path: Seq<char>,
    pub file_len: u64,
    pub modified_ms: Option<i64>,
    pub image: bool,
    pub frames: Seq<SearchFrameV>,
    pub visited: int,
    pub results: Seq<RemoteFileEntryV>,
    pub cur: Option<DirItemV>,
    pub name_match: bool,
}

impl View for Browse {
    type V = BrowseV;

    open spec fn view(&self) -> BrowseV {
        BrowseV {
            op: self.op@,
            phase: self.phase,
            root: self.root@,
            path: self.path@,
            file_len: self.file_len,
            modified_ms: self.modified_ms,
            image: self.image,
            frames: frames_view(self.frames@),
            visited: self.visited as int,
            results: entries_view(self.results@),
            cur: match self.cur {
                Some(i) => Some(i@),
                None => None,
            },
            name_match: self.name_match,
        }
    }
}

#[verifier::ext_equal]
pub struct RemoteFileReadV {
    pub relative_path: Seq<char>,
    pub kind: Seq<char>,
    pub content: Seq<char>,
    pub size_bytes: u64,
    pub modified_ms: Option<i64>,
    pub truncated: bool,
}

impl View for RemoteFileRead {
    type V = RemoteFileReadV;

    open spec fn view(&self) -> RemoteFileReadV {
        RemoteFileReadV {
            relative_path: self.relative_path@,
            kind: self.kind@,
            content: self.content@,
            size_bytes: self.size_bytes,
            modified_ms: self.modified_ms,
            truncated: self.truncated,
        }
    }
}

/// What a browsing operation gives back.
pub enum BrowseOutcome {
    Entries(Vec<RemoteFileEntry>),
    File(RemoteFileRead),
}

pub enum BrowseOutcomeV {
    Entries(Seq<RemoteFileEntryV>),
    File(RemoteFileReadV),
}

impl View for BrowseOutcome {
    type V = BrowseOutcomeV;

    open spec fn view(&self) -> BrowseOutcomeV {
        match self {
            BrowseOutcome::Entries(e) => BrowseOutcomeV::Entries(entries_view(e@)),
            BrowseOutcome::File(f) => BrowseOutcomeV::File(f@),
        }
    }
}

pub enum BrowseStep {
    Ask(Browse, FsRequest),
    Finished(Result<BrowseOutcome, String>),
}

pub enum BrowseStepV {
    Ask(BrowseV, FsRequestV),
    Finished(Result<BrowseOutcomeV, Seq<char>>),
}

impl View for BrowseStep {
    type V = BrowseStepV;

    open spec fn view(&self) -> BrowseStepV {
        match self {
            BrowseStep::Ask(m, q) => BrowseStepV::Ask(m@, q@),
            BrowseStep::Finished(r) => BrowseStepV::Finished(
                match r {
                    Ok(o) => Ok(o@),
                    Err(e) => Err(e@),
                },
            ),
        }
    }
}

pub open spec fn bfail(e: Seq<char>) -> BrowseStepV {
    BrowseStepV::Finished(Err(e))
}

/// The entry reported for a listed item with its file type and metadata.
pub open spec fn item_entry(it: DirItemV, rel: Seq<char>, k: EntryKind, f: FileMeta) -> RemoteFileEntryV {
    RemoteFileEntryV {
        name: it.name,
        relative_path: rel,
        kind: if k.is_dir { "directory"@ } else { "file"@ },
        size_bytes: f.len,
        modified_ms: f.modified_ms,
    }
}

/// The entries a directory listing gives, from item `i` on with `acc`
/// gathered so far: symbolic links are left out, an unreadable file type
/// or metadata fails, and the listing stops after 500 entries (an error
/// among the items left unread is then not seen).
pub open spec fn collect_spec(
    root: Seq<char>,
    items: Seq<DirItemV>,
    complete: bool,
    i: int,
    acc: Seq<RemoteFileEntryV>,
) -> Result<Seq<RemoteFileEntryV>, Seq<char>>
    decreases items.len() - i,
{
    if i < 0 || i >= items.len() {
        if complete {
            Ok(acc)
        } else {
            Err("remote_file_list_failed"@)
        }
    } else {
        let it = items[i];
        match it.kind {
            None => Err("remote_file_list_failed"@),
            Some(k) => if k.is_symlink {
                collect_spec(root, items, complete, i + 1, acc)
            } else {
                match it.meta {
                    None => Err("remote_file_metadata_failed"@),
                    Some(f) => match relative_spec(root, it.path) {
                        None => Err("remote_file_path_confined"@),
                        Some(rel) => {
                            let acc2 = acc.push(item_entry(it, rel, k, f));
                            if acc2.len() >= MAX_ENTRIES {
                                Ok(acc2)
                            } else {
                                collect_spec(root, items, complete, i + 1, acc2)
                            }
                        },
                    },
                }
            },
        }
    }
}

/// `a` sorts strictly before `b` in a listing: files before directories
/// (the kinds compared in reverse), then by lower-cased name.
pub open spec fn entry_lt(a: RemoteFileEntryV, b: RemoteFileEntryV) -> bool {
    if a.kind != b.kind {
        text_lt(b.kind, a.kind)
    } else {
        text_lt(unicode_lower(a.name), unicode_lower(b.name))
    }
}

/// The position at which `x` goes into the sorted `t`: before the first
/// entry that it sorts strictly before, so that equal entries keep their
/// order.
pub open spec fn insert_pos(t: Seq<RemoteFileEntryV>, x: RemoteFileEntryV) -> int
    decreases t.len(),
{
    if t.len() == 0 {
        0
    } else if entry_lt(x, t[0]) {
        0
    } else {
        1 + insert_pos(t.drop_first(), x)
    }
}

/// A stable sort of the listing's entries by `entry_lt` (as `sort_by` is).
pub open spec fn sort_entries(s: Seq<RemoteFileEntryV>) -> Seq<RemoteFileEntryV>
    decreases s.len(),
{
    if s.len() == 0 {
        s
    } else {
        let t = sort_entries(s.drop_last());
        t.insert(insert_pos(t, s.last()), s.last())
    }
}

/// The search may descend into one more directory: the walk is not too
/// deep and neither limit is reached.
pub open spec fn can_descend(m: BrowseV) -> bool {
    m.frames.len() <= MAX_SEARCH_DEPTH && m.results.len() < MAX_SEARCH_RESULTS
        && m.visited < MAX_WALK_FILES
}

pub open spec fn search_query(op: BrowseOpV) -> Seq<char> {
    match op {
        BrowseOpV::Search { query, .. } => query,
        _ => Seq::empty(),
    }
}

pub open spec fn search_content(op: BrowseOpV) -> bool {
    match op {
        BrowseOpV::Search { content, .. } => content,
        _ => false,
    }
}

/// After an entry has been looked at: record it if it matched, then descend
/// into it if it is a directory and the walk may, else go on.
pub open spec fn matched_spec(m: BrowseV, it: DirItemV, matched: bool) -> Result<BrowseV, Seq<char>> {
    if !matched {
        Ok(m)
    } else {
        match (it.kind, it.meta) {
            (Some(k), Some(f)) => match relative_spec(m.root, it.path) {
                None => Err("remote_file_path_confined"@),
                Some(rel) => Ok(BrowseV { results: m.results.push(item_entry(it, rel, k, f)), ..m }),
            },
            _ => Ok(m),
        }
    }
}

pub open spec fn is_dir_item(it: DirItemV) -> bool {
    it.kind matches Some(k) && k.is_dir
}

/// The walk goes on from the innermost directory's next entry.
pub open spec fn walk_spec(m: BrowseV) -> BrowseStepV
    decreases m.frames.len(), (if m.frames.len() > 0 { m.frames.last().items.len() - m.frames.last().next } else { 0 }),
{
    if m.frames.len() == 0 {
        BrowseStepV::Finished(Ok(BrowseOutcomeV::Entries(m.results)))
    } else {
        let f = m.frames.last();
        let popped = BrowseV { frames: m.frames.drop_last(), ..m };
        if m.results.len() >= MAX_SEARCH_RESULTS || m.visited >= MAX_WALK_FILES {
            walk_spec(popped)
        } else if f.next < 0 || f.next >= f.items.len() {
            if !f.complete {
                bfail("remote_file_search_failed"@)
            } else {
                walk_spec(popped)
            }
        } else {
            let it = f.items[f.next];
            let m1 = BrowseV {
                visited: m.visited + 1,
                frames: m.frames.update(m.frames.len() - 1, SearchFrameV { next: f.next + 1, ..f }),
                ..m
            };
            match it.kind {
                None => bfail("remote_file_search_failed"@),
                Some(k) => if k.is_symlink {
                    walk_spec(m1)
                } else {
                    match it.meta {
                        None => bfail("remote_file_metadata_failed"@),
                        Some(meta) => {
                            let name_match = contains_text(unicode_lower(it.name), search_query(m.op));
                            if search_content(m.op) && k.is_file && meta.len <= MAX_SEARCH_FILE_BYTES {
                                BrowseStepV::Ask(
                                    BrowseV {
                                        phase: BrowsePhase::ContentRead,
                                        cur: Some(it),
                                        name_match,
                                        ..m1
                                    },
                                    FsRequestV::ReadFile(it.path),
                                )
                            } else {
                                match matched_spec(m1, it, name_match) {
                                    Err(e) => bfail(e),
                                    Ok(m2) => if k.is_dir && can_descend(m2) {
                                        BrowseStepV::Ask(
                                            BrowseV { phase: BrowsePhase::WalkRead, ..m2 },
                                            FsRequestV::ReadDir(it.path),
                                        )
                                    } else {
                                        walk_spec(m2)
                                    },
                                }
                            }
                        },
                    }
                },
            }
        }
    }
}

/// After a searched file's content was read (or could not be).
pub open spec fn content_done_spec(m: BrowseV, it: DirItemV, content_match: bool) -> BrowseStepV {
    match matched_spec(m, it, m.name_match || content_match) {
        Err(e) => bfail(e),
        Ok(m2) => if is_dir_item(it) && can_descend(m2) {
            BrowseStepV::Ask(BrowseV { phase: BrowsePhase::WalkRead, ..m2 }, FsRequestV::ReadDir(it.path))
        } else {
            walk_spec(m2)
        },
    }
}

/// The file content a search reads matches when it is valid UTF-8 whose
/// lower-cased text holds the query.
pub open spec fn content_matches(b: Option<Seq<u8>>, query: Seq<char>) -> bool {
    b matches Some(bytes) && valid_utf8(bytes) && contains_text(unicode_lower(decode_utf8(bytes)), query)
}

/// The operation goes on once the root is known to be a directory.
pub open spec fn root_ready_spec(m: BrowseV) -> BrowseStepV {
    match m.op {
        BrowseOpV::List { rel } => if !relative_text_ok(rel) {
            bfail("remote_file_path_invalid"@)
        } else {
            BrowseStepV::Ask(BrowseV { phase: BrowsePhase::RelCanon, ..m }, FsRequestV::Canonicalize(join_spec(m.root, rel)))
        },
        BrowseOpV::Read { rel } => if !relative_text_ok(rel) {
            bfail("remote_file_path_invalid"@)
        } else {
            BrowseStepV::Ask(BrowseV { phase: BrowsePhase::RelCanon, ..m }, FsRequestV::Canonicalize(join_spec(m.root, rel)))
        },
        BrowseOpV::Search { .. } => if can_descend(m) {
            BrowseStepV::Ask(BrowseV { phase: BrowsePhase::WalkRead, ..m }, FsRequestV::ReadDir(m.root))
        } else {
            walk_spec(m)
        },
    }
}

/// The largest file read for preview: 5 MiB for images, 1 MiB for text.
pub open spec fn read_limit(image: bool) -> u64 {
    if image { MAX_IMAGE_READ_BYTES } else { MAX_TEXT_READ_BYTES }
}

/// Whether the path names an SVG image (its extension, ignoring ASCII case).
pub open spec fn is_svg(path: Seq<char>) -> bool {
    extension_spec(path) matches Some(x) && ascii_lower(x) == "svg"@
}

/// The preview content of a file read: a `data:` URL for an image, else
/// the text, or `remote_file_binary` when the bytes are no UTF-8.
pub open spec fn preview_content(path: Seq<char>, image: bool, bytes: Seq<u8>) -> Result<Seq<char>, Seq<char>> {
    if image {
        Ok("data:"@ + image_mime_spec(path) + ";base64,"@ + b64_encode(bytes))
    } else if valid_utf8(bytes) {
        Ok(decode_utf8(bytes))
    } else {
        Err("remote_file_binary"@)
    }
}

/// One step of a browsing operation with the reply `r` to its last request.
pub open spec fn browse_step_spec(m: BrowseV, r: FsReplyV) -> BrowseStepV {
    match m.phase {
        BrowsePhase::RootCanon => match reply_path(r) {
            None => bfail("remote_file_root_unavailable"@),
            Some(c) => BrowseStepV::Ask(BrowseV { phase: BrowsePhase::RootIsDir, root: c, ..m }, FsRequestV::Metadata(c)),
        },
        BrowsePhase::RootIsDir => match reply_meta(r) {
            MetaReply::Found(f) => if f.is_dir {
                root_ready_spec(m)
            } else {
                bfail("remote_file_root_not_directory"@)
            },
            _ => bfail("remote_file_root_not_directory"@),
        },
        BrowsePhase::RelCanon => match reply_path(r) {
            None => bfail("remote_file_not_found"@),
            Some(c) => if !within(c, m.root) {
                bfail("remote_file_path_confined"@)
            } else if m.op is List {
                BrowseStepV::Ask(BrowseV { phase: BrowsePhase::DirMeta, path: c, ..m }, FsRequestV::Metadata(c))
            } else {
                BrowseStepV::Ask(BrowseV { phase: BrowsePhase::TargetMeta, path: c, ..m }, FsRequestV::Metadata(c))
            },
        },
        BrowsePhase::DirMeta => match reply_meta(r) {
            MetaReply::Found(f) => if f.is_dir {
                BrowseStepV::Ask(BrowseV { phase: BrowsePhase::Listed, ..m }, FsRequestV::ReadDir(m.path))
            } else {
                bfail("remote_file_not_directory"@)
            },
            _ => bfail("remote_file_not_directory"@),
        },
        BrowsePhase::Listed => {
            let l = reply_listing(r);
            match collect_spec(m.root, l.items, l.complete, 0, Seq::empty()) {
                Err(e) => bfail(e),
                Ok(es) => BrowseStepV::Finished(Ok(BrowseOutcomeV::Entries(sort_entries(es)))),
            }
        },
        BrowsePhase::TargetMeta => match reply_meta(r) {
            MetaReply::Found(f) => {
                let image = lower_extension(m.path) matches Some(x) && image_extension(x);
                if !f.is_file {
                    bfail("remote_file_not_file"@)
                } else if lower_extension(m.path) matches Some(x) && video_extension(x) {
                    bfail("video_preview_unsupported"@)
                } else if f.len > read_limit(image) {
                    bfail(if image { "image_file_too_large"@ } else { "remote_file_too_large"@ })
                } else {
                    let m2 = BrowseV { file_len: f.len, modified_ms: f.modified_ms, image, ..m };
                    if image && !is_svg(m.path) {
                        BrowseStepV::Ask(BrowseV { phase: BrowsePhase::ReadDims, ..m2 }, FsRequestV::ImageDimensions(m.path))
                    } else {
                        BrowseStepV::Ask(BrowseV { phase: BrowsePhase::ReadContent, ..m2 }, FsRequestV::ReadFile(m.path))
                    }
                }
            },
            _ => bfail("remote_file_not_found"@),
        },
        BrowsePhase::ReadDims => match reply_dimensions(r) {
            None => bfail("remote_file_image_invalid"@),
            Some((w, h)) => if w * h > MAX_IMAGE_PIXELS {
                bfail("image_dimensions_too_large"@)
            } else {
                BrowseStepV::Ask(BrowseV { phase: BrowsePhase::ReadContent, ..m }, FsRequestV::ReadFile(m.path))
            },
        },
        BrowsePhase::ReadContent => match reply_bytes(r) {
            None => bfail("remote_file_read_failed"@),
            Some(bytes) => match preview_content(m.path, m.image, bytes) {
                Err(e) => bfail(e),
                Ok(content) => match relative_spec(m.root, m.path) {
                    None => bfail("remote_file_path_confined"@),
                    Some(rel) => BrowseStepV::Finished(Ok(BrowseOutcomeV::File(RemoteFileReadV {
                        relative_path: rel,
                        kind: if m.image { "image"@ } else { "text"@ },
                        content,
                        size_bytes: m.file_len,
                        modified_ms: m.modified_ms,
                        truncated: false,
                    }))),
                },
            },
        },
        BrowsePhase::WalkRead => {
            let l = reply_listing(r);
            walk_spec(BrowseV { frames: m.frames.push(SearchFrameV { items: l.items, next: 0, complete: l.complete }), ..m })
        },
        BrowsePhase::ContentRead => match m.cur {
            None => walk_spec(m),
            Some(it) => content_done_spec(
                BrowseV { cur: None, ..m },
                it,
                content_matches(reply_bytes(r), search_query(m.op)),
            ),
        },
    }
}

/// How a browsing operation on `root_text` starts: the root's text
/// checks, then its canonicalization.
pub open spec fn browse_start_spec(op: BrowseOpV, root_text: Seq<char>) -> BrowseStepV {
    if !root_text_ok(trim(root_text)) {
        bfail("remote_file_root_invalid"@)
    } else {
        BrowseStepV::Ask(
            BrowseV {
                op,
                phase: BrowsePhase::RootCanon,
                root: Seq::empty(),
                path: Seq::empty(),
                file_len: 0,
                modified_ms: None,
                image: false,
                frames: Seq::empty(),
                visited: 0,
                results: Seq::empty(),
                cur: None,
                name_match: false,
            },
            FsRequestV::Canonicalize(trim(root_text)),
        )
    }
}

/// The search query as it is matched: trimmed and lower-cased.
pub open spec fn query_spec(q: Seq<char>) -> Seq<char> {
    unicode_lower(trim(q))
}

/// A search query too short (under 2 characters) or too long (over 256
/// bytes) finds nothing, without looking at the root.
pub open spec fn query_usable(q: Seq<char>) -> bool {
    query_spec(q).len() >= 2 && encode_utf8(query_spec(q)).len() <= 256
}


fn fail_str(e: &str) -> (r: BrowseStep)
    ensures
        r@ == bfail(e@),
{
    BrowseStep::Finished(Err(String::from_str(e)))
}

fn copy_item(it: &DirItem) -> (r: DirItem)
    ensures
        r@ == it@,
{
    DirItem { name: copy_string(it.name.as_str()), path: copy_string(it.path.as_str()), kind: it.kind, meta: it.meta }
}

fn make_entry(it: &DirItem, rel: String, k: EntryKind, f: FileMeta) -> (e: RemoteFileEntry)
    ensures
        e@ == item_entry(it@, rel@, k, f),
{
    RemoteFileEntry {
        name: copy_string(it.name.as_str()),
        relative_path: rel,
        kind: if k.is_dir { String::from_str("directory") } else { String::from_str("file") },
        size_bytes: f.len,
        modified_ms: f.modified_ms,
    }
}

/// The entries a directory listing gives (see `collect_spec`).
pub fn collect_entries(root: &str, items: &Vec<DirItem>, complete: bool) -> (r: Result<Vec<RemoteFileEntry>, String>)
    ensures
        match collect_spec(root@, items_view(items@), complete, 0, Seq::empty()) {
            Ok(es) => r matches Ok(v) && entries_view(v@) == es,
            Err(e) => r matches Err(x) && x@ == e,
        },
{
    let ghost iv = items_view(items@);
    let mut acc: Vec<RemoteFileEntry> = Vec::new();
    let mut i: usize = 0;
    proof {
        assert(entries_view(acc@) =~= Seq::<RemoteFileEntryV>::empty());
    }
    while i < items.len()
        invariant
            iv == items_view(items@),
            i <= items@.len(),
            acc@.len() < MAX_ENTRIES,
            collect_spec(root@, iv, complete, 0, Seq::empty()) == collect_spec(root@, iv, complete, i as int, entries_view(acc@)),
        decreases items.len() - i,
    {
        let it = &items[i];
        proof {
            assert(iv[i as int] == it@);
        }
        match it.kind {
            None => return Err(String::from_str("remote_file_list_failed")),
            Some(k) => {
                if !k.is_symlink {
                    match it.meta {
                        None => return Err(String::from_str("remote_file_metadata_failed")),
                        Some(f) => {
                            let rel = relative_path(root, it.path.as_str())?;
                            let e = make_entry(it, rel, k, f);
                            let ghost before = entries_view(acc@);
                            acc.push(e);
                            proof {
                                assert(entries_view(acc@) =~= before.push(e@));
                            }
                            if acc.len() >= MAX_ENTRIES {
                                return Ok(acc);
                            }
                        },
                    }
                }
            },
        }
        i = i + 1;
    }
    if !complete {
        return Err(String::from_str("remote_file_list_failed"));
    }
    Ok(acc)
}

fn entry_before(a: &RemoteFileEntry, b: &RemoteFileEntry) -> (r: bool)
    ensures
        r == entry_lt(a@, b@),
{
    if !same_text(a.kind.as_str(), b.kind.as_str()) {
        let x = chars_of(b.kind.as_str());
        let y = chars_of(a.kind.as_str());
        chars_lt(&x, &y)
    } else {
        let x = chars_of(to_lower(a.name.as_str()).as_str());
        let y = chars_of(to_lower(b.name.as_str()).as_str());
        chars_lt(&x, &y)
    }
}

proof fn lemma_insert_pos(t: Seq<RemoteFileEntryV>, x: RemoteFileEntryV, j: int)
    requires
        0 <= j <= t.len(),
        forall|k: int| 0 <= k < j ==> !entry_lt(x, #[trigger] t[k]),
        j == t.len() || entry_lt(x, t[j]),
    ensures
        insert_pos(t, x) == j,
    decreases t.len(),
{
    if t.len() > 0 && j > 0 {
        assert(!entry_lt(x, t[0]));
        assert forall|k: int| 0 <= k < j - 1 implies !entry_lt(x, #[trigger] t.drop_first()[k]) by {
            assert(t.drop_first()[k] == t[k + 1]);
        }
        if j < t.len() {
            assert(t.drop_first()[j - 1] == t[j]);
        }
        lemma_insert_pos(t.drop_first(), x, j - 1);
    }
}

/// Sorts a listing's entries (see `sort_entries`).
pub fn sort_listing(es: Vec<RemoteFileEntry>) -> (r: Vec<RemoteFileEntry>)
    ensures
        entries_view(r@) == sort_entries(entries_view(es@)),
{
    let ghost s = entries_view(es@);
    let mut out: Vec<RemoteFileEntry> = Vec::new();
    let mut src = es;
    let mut rev: Vec<RemoteFileEntry> = Vec::new();
    // take the entries out front to back
    while src.len() > 0
        invariant
            entries_view(src@) + entries_view(rev@).reverse() == s,
        decreases src.len(),
    {
        let e = src.pop().unwrap();
        let ghost a = entries_view(src@);
        let ghost b = entries_view(rev@);
        rev.push(e);
        proof {
            assert(entries_view(rev@) =~= b.push(e@));
            assert(b.push(e@).reverse() =~= seq![e@] + b.reverse());
            assert(a.push(e@) + b.reverse() =~= a + (seq![e@] + b.reverse()));
        }
    }
    proof {
        assert(entries_view(src@) =~= Seq::<RemoteFileEntryV>::empty());
        assert(entries_view(rev@).reverse() =~= s);
        assert(entries_view(out@) =~= Seq::<RemoteFileEntryV>::empty());
        assert(s.take(0) =~= Seq::<RemoteFileEntryV>::empty());
    }
    let ghost n = s.len();
    while rev.len() > 0
        invariant
            n == s.len(),
            rev@.len() <= n,
            entries_view(rev@).reverse() == s.skip(n - rev@.len()),
            entries_view(out@) == sort_entries(s.take(n - rev@.len())),
        decreases rev.len(),
    {
        let ghost i = n - rev@.len();
        let ghost b = entries_view(rev@);
        let x = rev.pop().unwrap();
        proof {
            assert(b.reverse()[0] == b[b.len() - 1]);
            assert(s.skip(i)[0] == s[i]);
            assert(x@ == s[i]);
            assert(entries_view(rev@) =~= b.drop_last());
            assert(b.drop_last().reverse() =~= b.reverse().drop_first());
            assert(s.skip(i).drop_first() =~= s.skip(i + 1));
        }
        let mut j: usize = 0;
        while j < out.len() && !entry_before(&x, &out[j])
            invariant
                j <= out@.len(),
                forall|k: int| 0 <= k < j ==> !entry_lt(x@, #[trigger] entries_view(out@)[k]),
            decreases out.len() - j,
        {
            proof {
                assert(entries_view(out@)[j as int] == out@[j as int]@);
            }
            j = j + 1;
        }
        proof {
            if j < out@.len() {
                assert(entries_view(out@)[j as int] == out@[j as int]@);
            }
            lemma_insert_pos(entries_view(out@), x@, j as int);
            assert(s.take(i + 1).drop_last() =~= s.take(i));
            assert(s.take(i + 1).last() == s[i]);
        }
        let ghost before = entries_view(out@);
        out.insert(j, x);
        proof {
            assert(entries_view(out@) =~= before.insert(j as int, x@));
        }
    }
    proof {
        assert(s.take(n as int) =~= s);
    }
    out
}

fn is_svg_path(path: &str) -> (r: bool)
    ensures
        r == is_svg(path@),
{
    match extension(path) {
        Some(x) => same_text(to_ascii_lower(x.as_str()).as_str(), "svg"),
        None => false,
    }
}

fn preview(path: &str, image: bool, bytes: Vec<u8>) -> (r: Result<String, String>)
    ensures
        match preview_content(path@, image, bytes@) {
            Ok(c) => r matches Ok(s) && s@ == c,
            Err(e) => r matches Err(x) && x@ == e,
        },
{
    if image {
        let a = concat("data:", image_mime(path));
        let b = concat(a.as_str(), ";base64,");
        let c = base64_encode_impl(bytes.as_slice());
        Ok(concat(b.as_str(), c.as_str()))
    } else {
        match utf8_text(bytes) {
            Some(t) => Ok(t),
            None => Err(String::from_str("remote_file_binary")),
        }
    }
}

fn content_hit(b: Option<Vec<u8>>, query: &str) -> (r: bool)
    ensures
        r == content_matches(
            match b {
                Some(v) => Some(v@),
                None => None,
            },
            query@,
        ),
{
    match b {
        Some(v) => match utf8_text(v) {
            Some(t) => text_contains(to_lower(t.as_str()).as_str(), query),
            None => false,
        },
        None => false,
    }
}

impl Browse {
    fn query_copy(&self) -> (q: String)
        ensures
            q@ == search_query(self@.op),
    {
        match &self.op {
            BrowseOp::Search { query, .. } => copy_string(query.as_str()),
            _ => String::new(),
        }
    }

    fn content_flag(&self) -> (c: bool)
        ensures
            c == search_content(self@.op),
    {
        match &self.op {
            BrowseOp::Search { content, .. } => *content,
            _ => false,
        }
    }

    fn can_descend(&self) -> (b: bool)
        ensures
            b == can_descend(self@),
    {
        self.frames.len() <= MAX_SEARCH_DEPTH && self.results.len() < MAX_SEARCH_RESULTS && self.visited
            < MAX_WALK_FILES
    }

    fn record_match(self, it: &DirItem, matched: bool) -> (r: Result<Browse, String>)
        ensures
            match matched_spec(self@, it@, matched) {
                Ok(m2) => r matches Ok(b) && b@ == m2,
                Err(e) => r matches Err(x) && x@ == e,
            },
    {
        if !matched {
            return Ok(self);
        }
        match (it.kind, it.meta) {
            (Some(k), Some(f)) => {
                let rel = relative_path(self.root.as_str(), it.path.as_str())?;
                let e = make_entry(it, rel, k, f);
                let mut m = self;
                let ghost before = entries_view(m.results@);
                m.results.push(e);
                proof {
                    assert(entries_view(m.results@) =~= before.push(e@));
                }
                Ok(m)
            },
            _ => Ok(self),
        }
    }

    fn walk(self) -> (r: BrowseStep)
        ensures
            r@ == walk_spec(self@),
        decreases self@.frames.len(), (if self@.frames.len() > 0 { self@.frames.last().items.len() - self@.frames.last().next } else { 0 }),
    {
        let mut m = self;
        if m.frames.len() == 0 {
            return BrowseStep::Finished(Ok(BrowseOutcome::Entries(m.results)));
        }
        let ghost old_m = m@;
        let last = m.frames.len() - 1;
        proof {
            assert(old_m.frames.last() == m.frames@[last as int]@);
        }
        if m.results.len() >= MAX_SEARCH_RESULTS || m.visited >= MAX_WALK_FILES {
            let _ = m.frames.pop();
            proof {
                assert(frames_view(m.frames@) =~= old_m.frames.drop_last());
            }
            return m.walk();
        }
        let nxt = m.frames[last].next;
        let nitems = m.frames[last].items.len();
        if nxt >= nitems {
            if !m.frames[last].complete {
                return fail_str("remote_file_search_failed");
            }
            let _ = m.frames.pop();
            proof {
                assert(frames_view(m.frames@) =~= old_m.frames.drop_last());
            }
            return m.walk();
        }
        let it = copy_item(&m.frames[last].items[nxt]);
        proof {
            assert(old_m.frames.last().items[nxt as int] == it@);
        }
        let mut fr = m.frames.pop().unwrap();
        fr.next = nxt + 1;
        m.frames.push(fr);
        m.visited = m.visited + 1;
        proof {
            let f = old_m.frames.last();
            assert(frames_view(m.frames@) =~= old_m.frames.update(old_m.frames.len() - 1, SearchFrameV { next: f.next + 1, ..f }));
        }
        match it.kind {
            None => fail_str("remote_file_search_failed"),
            Some(k) => {
                if k.is_symlink {
                    return m.walk();
                }
                match it.meta {
                    None => fail_str("remote_file_metadata_failed"),
                    Some(meta) => {
                        let query = m.query_copy();
                        let name_match = text_contains(to_lower(it.name.as_str()).as_str(), query.as_str());
                        if m.content_flag() && k.is_file && meta.len <= MAX_SEARCH_FILE_BYTES {
                            let q = copy_string(it.path.as_str());
                            return BrowseStep::Ask(
                                Browse { phase: BrowsePhase::ContentRead, cur: Some(it), name_match, ..m },
                                FsRequest::ReadFile(q),
                            );
                        }
                        match m.record_match(&it, name_match) {
                            Err(e) => BrowseStep::Finished(Err(e)),
                            Ok(m2) => {
                                if k.is_dir && m2.can_descend() {
                                    let q = copy_string(it.path.as_str());
                                    BrowseStep::Ask(Browse { phase: BrowsePhase::WalkRead, ..m2 }, FsRequest::ReadDir(q))
                                } else {
                                    m2.walk()
                                }
                            },
                        }
                    },
                }
            },
        }
    }

    fn content_done(self, it: DirItem, content_match: bool) -> (r: BrowseStep)
        ensures
            r@ == content_done_spec(self@, it@, content_match),
    {
        let matched = self.name_match || content_match;
        match self.record_match(&it, matched) {
            Err(e) => BrowseStep::Finished(Err(e)),
            Ok(m2) => {
                let dir = match it.kind {
                    Some(k) => k.is_dir,
                    None => false,
                };
                if dir && m2.can_descend() {
                    BrowseStep::Ask(Browse { phase: BrowsePhase::WalkRead, ..m2 }, FsRequest::ReadDir(it.path))
                } else {
                    m2.walk()
                }
            },
        }
    }

    fn root_ready(self) -> (r: BrowseStep)
        ensures
            r@ == root_ready_spec(self@),
    {
        let rel = match &self.op {
            BrowseOp::List { rel } => copy_string(rel.as_str()),
            BrowseOp::Read { rel } => copy_string(rel.as_str()),
            BrowseOp::Search { .. } => {
                if self.can_descend() {
                    let q = copy_string(self.root.as_str());
                    return BrowseStep::Ask(Browse { phase: BrowsePhase::WalkRead, ..self }, FsRequest::ReadDir(q));
                }
                return self.walk();
            },
        };
        if let Err(e) = check_relative_text(rel.as_str()) {
            return BrowseStep::Finished(Err(e));
        }
        let q = join(self.root.as_str(), rel.as_str());
        BrowseStep::Ask(Browse { phase: BrowsePhase::RelCanon, ..self }, FsRequest::Canonicalize(q))
    }

    /// One step with the reply to the last request (see `browse_step_spec`).
    pub fn resume(self, reply: FsReply) -> (r: BrowseStep)
        ensures
            r@ == browse_step_spec(self@, reply@),
    {
        match self.phase {
            BrowsePhase::RootCanon => match take_path(reply) {
                None => fail_str("remote_file_root_unavailable"),
                Some(c) => {
                    let q = copy_string(c.as_str());
                    BrowseStep::Ask(Browse { phase: BrowsePhase::RootIsDir, root: c, ..self }, FsRequest::Metadata(q))
                },
            },
            BrowsePhase::RootIsDir => match take_meta(&reply) {
                MetaReply::Found(f) => if f.is_dir {
                    self.root_ready()
                } else {
                    fail_str("remote_file_root_not_directory")
                },
                _ => fail_str("remote_file_root_not_directory"),
            },
            BrowsePhase::RelCanon => match take_path(reply) {
                None => fail_str("remote_file_not_found"),
                Some(c) => {
                    if !path_within(c.as_str(), self.root.as_str()) {
                        return fail_str("remote_file_path_confined");
                    }
                    let q = copy_string(c.as_str());
                    let listing = match &self.op {
                        BrowseOp::List { .. } => true,
                        _ => false,
                    };
                    if listing {
                        BrowseStep::Ask(Browse { phase: BrowsePhase::DirMeta, path: c, ..self }, FsRequest::Metadata(q))
                    } else {
                        BrowseStep::Ask(Browse { phase: BrowsePhase::TargetMeta, path: c, ..self }, FsRequest::Metadata(q))
                    }
                },
            },
            BrowsePhase::DirMeta => match take_meta(&reply) {
                MetaReply::Found(f) => if f.is_dir {
                    let q = copy_string(self.path.as_str());
                    BrowseStep::Ask(Browse { phase: BrowsePhase::Listed, ..self }, FsRequest::ReadDir(q))
                } else {
                    fail_str("remote_file_not_directory")
                },
                _ => fail_str("remote_file_not_directory"),
            },
            BrowsePhase::Listed => {
                let l = take_listing(reply);
                match collect_entries(self.root.as_str(), &l.items, l.complete) {
                    Err(e) => BrowseStep::Finished(Err(e)),
                    Ok(es) => BrowseStep::Finished(Ok(BrowseOutcome::Entries(sort_listing(es)))),
                }
            },
            BrowsePhase::TargetMeta => match take_meta(&reply) {
                MetaReply::Found(f) => {
                    let image = is_image(self.path.as_str());
                    if !f.is_file {
                        return fail_str("remote_file_not_file");
                    }
                    if is_video(self.path.as_str()) {
                        return fail_str("video_preview_unsupported");
                    }
                    let limit = if image { MAX_IMAGE_READ_BYTES } else { MAX_TEXT_READ_BYTES };
                    if f.len > limit {
                        return if image {
                            fail_str("image_file_too_large")
                        } else {
                            fail_str("remote_file_too_large")
                        };
                    }
                    let q = copy_string(self.path.as_str());
                    if image && !is_svg_path(self.path.as_str()) {
                        BrowseStep::Ask(
                            Browse { phase: BrowsePhase::ReadDims, file_len: f.len, modified_ms: f.modified_ms, image, ..self },
                            FsRequest::ImageDimensions(q),
                        )
                    } else {
                        BrowseStep::Ask(
                            Browse { phase: BrowsePhase::ReadContent, file_len: f.len, modified_ms: f.modified_ms, image, ..self },
                            FsRequest::ReadFile(q),
                        )
                    }
                },
                _ => fail_str("remote_file_not_found"),
            },
            BrowsePhase::ReadDims => match take_dimensions(&reply) {
                None => fail_str("remote_file_image_invalid"),
                Some((w, h)) => {
                    assert((w as int) * (h as int) <= 0xffff_ffff * 0xffff_ffff) by (nonlinear_arith)
                        requires
                            w <= 0xffff_ffff,
                            h <= 0xffff_ffff,
                    ;
                    if (w as u64) * (h as u64) > MAX_IMAGE_PIXELS {
                        return fail_str("image_dimensions_too_large");
                    }
                    let q = copy_string(self.path.as_str());
                    BrowseStep::Ask(Browse { phase: BrowsePhase::ReadContent, ..self }, FsRequest::ReadFile(q))
                },
            },
            BrowsePhase::ReadContent => match take_bytes(reply) {
                None => fail_str("remote_file_read_failed"),
                Some(bytes) => match preview(self.path.as_str(), self.image, bytes) {
                    Err(e) => BrowseStep::Finished(Err(e)),
                    Ok(content) => match relative_path(self.root.as_str(), self.path.as_str()) {
                        Err(e) => BrowseStep::Finished(Err(e)),
                        Ok(rel) => BrowseStep::Finished(Ok(BrowseOutcome::File(RemoteFileRead {
                            relative_path: rel,
                            kind: if self.image { String::from_str("image") } else { String::from_str("text") },
                            content,
                            size_bytes: self.file_len,
                            modified_ms: self.modified_ms,
                            truncated: false,
                        }))),
                    },
                },
            },
            BrowsePhase::WalkRead => {
                let l = take_listing(reply);
                let mut m = self;
                let ghost before = frames_view(m.frames@);
                m.frames.push(SearchFrame { items: l.items, next: 0, complete: l.complete });
                proof {
                    assert(frames_view(m.frames@) =~= before.push(SearchFrameV { items: l@.items, next: 0, complete: l@.complete }));
                }
                m.walk()
            },
            BrowsePhase::ContentRead => {
                let query = self.query_copy();
                let mut m = self;
                match m.cur.take() {
                    None => m.walk(),
                    Some(it) => {
                        let hit = content_hit(take_bytes(reply), query.as_str());
                        m.content_done(it, hit)
                    },
                }
            },
        }
    }
}

fn browse_start(op: BrowseOp, root_text: &str) -> (r: BrowseStep)
    ensures
        r@ == browse_start_spec(op@, root_text@),
{
    match check_root_text(root_text) {
        Err(e) => BrowseStep::Finished(Err(e)),
        Ok(t) => {
            let m = Browse {
                op,
                phase: BrowsePhase::RootCanon,
                root: String::new(),
                path: String::new(),
                file_len: 0,
                modified_ms: None,
                image: false,
                frames: Vec::new(),
                visited: 0,
                results: Vec::new(),
                cur: None,
                name_match: false,
            };
            proof {
                assert(m@.frames =~= Seq::<SearchFrameV>::empty());
                assert(m@.results =~= Seq::<RemoteFileEntryV>::empty());
            }
            BrowseStep::Ask(m, FsRequest::Canonicalize(t))
        },
    }
}

/// Lists the directory `relative_path` under `root_path`: its entries but
/// symbolic links, at most 500, files first and then by lower-cased name.
pub fn list(request: FileListRequest) -> (r: BrowseStep)
    ensures
        r@ == browse_start_spec(BrowseOpV::List { rel: request.relative_path@ }, request.root_path@),
{
    browse_start(BrowseOp::List { rel: request.relative_path }, request.root_path.as_str())
}

/// Reads the file `relative_path` under `root_path` for preview: an image
/// as a `data:` URL, other files as UTF-8 text.
pub fn read(request: FileReadRequest) -> (r: BrowseStep)
    ensures
        r@ == browse_start_spec(BrowseOpV::Read { rel: request.relative_path@ }, request.root_path@),
{
    browse_start(BrowseOp::Read { rel: request.relative_path }, request.root_path.as_str())
}

/// Searches the tree under `root_path` for entries whose lower-cased name,
/// or (when `content` is set) lower-cased text, holds the trimmed,
/// lower-cased query: at most 200 results, 20000 entries looked at and 32
/// levels below the root. A query under 2 characters or over 256 bytes
/// finds nothing.
pub fn search(request: FileSearchRequest) -> (r: BrowseStep)
    ensures
        !query_usable(request.query@) ==> r@ == BrowseStepV::Finished(Ok(BrowseOutcomeV::Entries(Seq::empty()))),
        query_usable(request.query@) ==> r@ == browse_start_spec(
            BrowseOpV::Search { query: query_spec(request.query@), content: request.content },
            request.root_path@,
        ),
{
    let t = trimmed(request.query.as_str());
    let query = to_lower(t.as_str());
    let n = chars_of(query.as_str()).len();
    if n < 2 || query.as_str().as_bytes().len() > 256 {
        let r = BrowseStep::Finished(Ok(BrowseOutcome::Entries(Vec::new())));
        proof {
            assert(entries_view(Seq::<RemoteFileEntry>::empty()) =~= Seq::<RemoteFileEntryV>::empty());
        }
        return r;
    }
    browse_start(BrowseOp::Search { query, content: request.content }, request.root_path.as_str())
}

proof fn lemma_collect_bounded(
    root: Seq<char>,
    items: Seq<DirItemV>,
    complete: bool,
    i: int,
    acc: Seq<RemoteFileEntryV>,
)
    requires
        acc.len() < MAX_ENTRIES,
    ensures
        collect_spec(root, items, complete, i, acc) matches Ok(es) ==> es.len() <= MAX_ENTRIES,
    decreases items.len() - i,
{
    if 0 <= i < items.len() {
        let it = items[i];
        if let Some(k) = it.kind {
            if k.is_symlink {
                lemma_collect_bounded(root, items, complete, i + 1, acc);
            } else if let Some(f) = it.meta {
                if let Some(rel) = relative_spec(root, it.path) {
                    let acc2 = acc.push(item_entry(it, rel, k, f));
                    if acc2.len() < MAX_ENTRIES {
                        lemma_collect_bounded(root, items, complete, i + 1, acc2);
                    }
                }
            }
        }
    }
}

proof fn lemma_insert_pos_range(t: Seq<RemoteFileEntryV>, x: RemoteFileEntryV)
    ensures
        0 <= insert_pos(t, x) <= t.len(),
    decreases t.len(),
{
    if t.len() > 0 && !entry_lt(x, t[0]) {
        lemma_insert_pos_range(t.drop_first(), x);
    }
}

proof fn lemma_sort_len(s: Seq<RemoteFileEntryV>)
    ensures
        sort_entries(s).len() == s.len(),
    decreases s.len(),
{
    if s.len() > 0 {
        lemma_sort_len(s.drop_last());
        lemma_insert_pos_range(sort_entries(s.drop_last()), s.last());
    }
}

/// A listing reports at most 500 entries.
pub proof fn lemma_list_at_most_500(m: BrowseV, r: FsReplyV)
    requires
        m.phase is Listed,
    ensures
        browse_step_spec(m, r) matches BrowseStepV::Finished(Ok(BrowseOutcomeV::Entries(es))) ==> es.len()
            <= MAX_ENTRIES,
{
    let l = reply_listing(r);
    lemma_collect_bounded(m.root, l.items, l.complete, 0, Seq::empty());
    if let Ok(es) = collect_spec(m.root, l.items, l.complete, 0, Seq::empty()) {
        lemma_sort_len(es);
    }
}

/// What holds of a search between its steps: it has at most 200 results,
/// and it walks at most 33 directories deep (the root and 32 levels).
pub open spec fn search_inv(m: BrowseV) -> bool {
    &&& m.op is Search
    &&& m.phase is RootCanon || m.phase is RootIsDir || m.phase is WalkRead || m.phase is ContentRead
    &&& m.results.len() <= MAX_SEARCH_RESULTS
    &&& m.frames.len() <= MAX_SEARCH_DEPTH + 1
    &&& m.phase is WalkRead ==> m.frames.len() <= MAX_SEARCH_DEPTH
    &&& m.phase is ContentRead ==> m.results.len() < MAX_SEARCH_RESULTS
}

/// The step results a search may lead to: a state that keeps the
/// invariant, or at most 200 entries.
pub open spec fn search_step_ok(s: BrowseStepV) -> bool {
    &&& s matches BrowseStepV::Ask(m2, _) ==> search_inv(m2)
    &&& s matches BrowseStepV::Finished(Ok(o)) ==> (o matches BrowseOutcomeV::Entries(es) && es.len()
        <= MAX_SEARCH_RESULTS)
}

proof fn lemma_walk_bounded(m: BrowseV)
    requires
        m.op is Search,
        m.results.len() <= MAX_SEARCH_RESULTS,
        m.frames.len() <= MAX_SEARCH_DEPTH + 1,
    ensures
        search_step_ok(walk_spec(m)),
    decreases m.frames.len(), (if m.frames.len() > 0 { m.frames.last().items.len() - m.frames.last().next } else { 0 }),
{
    if m.frames.len() > 0 {
        let f = m.frames.last();
        let popped = BrowseV { frames: m.frames.drop_last(), ..m };
        if m.results.len() >= MAX_SEARCH_RESULTS || m.visited >= MAX_WALK_FILES {
            lemma_walk_bounded(popped);
        } else if f.next < 0 || f.next >= f.items.len() {
            if f.complete {
                lemma_walk_bounded(popped);
            }
        } else {
            let it = f.items[f.next];
            let m1 = BrowseV {
                visited: m.visited + 1,
                frames: m.frames.update(m.frames.len() - 1, SearchFrameV { next: f.next + 1, ..f }),
                ..m
            };
            assert(m1.frames.last() == SearchFrameV { next: f.next + 1, ..f });
            if let Some(k) = it.kind {
                if k.is_symlink {
                    lemma_walk_bounded(m1);
                } else if let Some(meta) = it.meta {
                    let name_match = contains_text(unicode_lower(it.name), search_query(m.op));
                    if !(search_content(m.op) && k.is_file && meta.len <= MAX_SEARCH_FILE_BYTES) {
                        if let Ok(m2) = matched_spec(m1, it, name_match) {
                            if !(k.is_dir && can_descend(m2)) {
                                lemma_walk_bounded(m2);
                            }
                        }
                    }
                }
            }
        }
    }
}

/// A search keeps its limits: whatever the file system answers, every step
/// leads to a state with at most 200 results that walks at most 32 levels
/// below the root, or ends with at most 200 entries; and it starts so.
pub proof fn lemma_search_bounded(m: BrowseV, r: FsReplyV, root_text: Seq<char>, query: Seq<char>, content: bool)
    ensures
        search_step_ok(browse_start_spec(BrowseOpV::Search { query, content }, root_text)),
        search_inv(m) ==> search_step_ok(browse_step_spec(m, r)),
{
    if search_inv(m) {
        match m.phase {
            BrowsePhase::RootIsDir => {
                if can_descend(m) {
                } else {
                    lemma_walk_bounded(m);
                }
            },
            BrowsePhase::WalkRead => {
                let l = reply_listing(r);
                lemma_walk_bounded(
                    BrowseV { frames: m.frames.push(SearchFrameV { items: l.items, next: 0, complete: l.complete }), ..m },
                );
            },
            BrowsePhase::ContentRead => {
                match m.cur {
                    None => lemma_walk_bounded(m),
                    Some(it) => {
                        let m0 = BrowseV { cur: None, ..m };
                        let hit = content_matches(reply_bytes(r), search_query(m.op));
                        if let Ok(m2) = matched_spec(m0, it, m0.name_match || hit) {
                            if !(is_dir_item(it) && can_descend(m2)) {
                                lemma_walk_bounded(m2);
                            }
                        }
                    },
                }
            },
            _ => {},
        }
    }
}

proof fn lemma_text_lt_trans(a: Seq<char>, b: Seq<char>, c: Seq<char>)
    requires
        text_lt(a, b),
        text_lt(b, c),
    ensures
        text_lt(a, c),
    decreases a.len(),
{
    if a.len() > 0 && b.len() > 0 && c.len() > 0 && a[0] == b[0] && b[0] == c[0] {
        lemma_text_lt_trans(a.drop_first(), b.drop_first(), c.drop_first());
    }
}

proof fn lemma_text_lt_asym(a: Seq<char>, b: Seq<char>)
    requires
        text_lt(a, b),
    ensures
        !text_lt(b, a),
    decreases a.len(),
{
    if a.len() > 0 && b.len() > 0 && a[0] == b[0] {
        lemma_text_lt_asym(a.drop_first(), b.drop_first());
    }
}

proof fn lemma_entry_lt_trans(a: RemoteFileEntryV, b: RemoteFileEntryV, c: RemoteFileEntryV)
    requires
        entry_lt(a, b),
        entry_lt(b, c),
    ensures
        entry_lt(a, c),
{
    if a.kind != b.kind && b.kind != c.kind {
        lemma_text_lt_trans(c.kind, b.kind, a.kind);
        if a.kind == c.kind {
            lemma_text_lt_asym(c.kind, b.kind);
        }
    } else if a.kind == b.kind && b.kind == c.kind {
        lemma_text_lt_trans(unicode_lower(a.name), unicode_lower(b.name), unicode_lower(c.name));
    }
}

proof fn lemma_entry_lt_asym(a: RemoteFileEntryV, b: RemoteFileEntryV)
    requires
        entry_lt(a, b),
    ensures
        !entry_lt(b, a),
{
    if a.kind != b.kind {
        lemma_text_lt_asym(b.kind, a.kind);
    } else {
        lemma_text_lt_asym(unicode_lower(a.name), unicode_lower(b.name));
    }
}

proof fn lemma_insert_pos_props(t: Seq<RemoteFileEntryV>, x: RemoteFileEntryV)
    ensures
        0 <= insert_pos(t, x) <= t.len(),
        forall|k: int| 0 <= k < insert_pos(t, x) ==> !entry_lt(x, #[trigger] t[k]),
        insert_pos(t, x) < t.len() ==> entry_lt(x, t[insert_pos(t, x)]),
    decreases t.len(),
{
    if t.len() > 0 && !entry_lt(x, t[0]) {
        let u = t.drop_first();
        lemma_insert_pos_props(u, x);
        assert forall|k: int| 0 <= k < insert_pos(t, x) implies !entry_lt(x, #[trigger] t[k]) by {
            if k > 0 {
                assert(t[k] == u[k - 1]);
            }
        }
        if insert_pos(t, x) < t.len() {
            assert(t[insert_pos(t, x)] == u[insert_pos(u, x)]);
        }
    }
}

/// No entry of `s` sorts strictly before one that comes earlier.
pub open spec fn entries_sorted(s: Seq<RemoteFileEntryV>) -> bool {
    forall|i: int, j: int| 0 <= i < j < s.len() ==> !entry_lt(#[trigger] s[j], #[trigger] s[i])
}

/// A listing comes out sorted, files before directories and then by
/// lower-cased name, holding exactly the entries it was given.
pub proof fn lemma_listing_sorted(s: Seq<RemoteFileEntryV>)
    ensures
        entries_sorted(sort_entries(s)),
        sort_entries(s).to_multiset() == s.to_multiset(),
    decreases s.len(),
{
    broadcast use vstd::seq_lib::to_multiset_insert, vstd::seq_lib::to_multiset_build;

    if s.len() > 0 {
        let t = sort_entries(s.drop_last());
        let x = s.last();
        lemma_listing_sorted(s.drop_last());
        lemma_insert_pos_props(t, x);
        let p = insert_pos(t, x);
        let u = t.insert(p, x);
        assert forall|i: int, j: int| 0 <= i < j < u.len() implies !entry_lt(#[trigger] u[j], #[trigger] u[i]) by {
            if j < p {
                assert(u[i] == t[i] && u[j] == t[j]);
            } else if j == p {
                assert(u[i] == t[i]);
                assert(u[j] == x);
            } else if i == p {
                assert(u[i] == x);
                assert(u[j] == t[j - 1]);
                if entry_lt(t[j - 1], x) {
                    assert(entry_lt(x, t[p]));
                    if j - 1 == p {
                        lemma_entry_lt_asym(x, t[p]);
                    } else {
                        lemma_entry_lt_trans(t[j - 1], x, t[p]);
                    }
                }
            } else if i < p {
                assert(u[i] == t[i] && u[j] == t[j - 1]);
            } else {
                assert(u[i] == t[i - 1] && u[j] == t[j - 1]);
            }
        }
        assert(s.drop_last().push(x) =~= s);
    }
}
/// Whether `prefix` comes first in the results a step leads to: the
/// results of the state it asks from, or the entries it ends with.
pub open spec fn results_start_with(step: BrowseStepV, prefix: Seq<RemoteFileEntryV>) -> bool {
    match step {
        BrowseStepV::Ask(m2, _) => m2.results.len() >= prefix.len() && m2.results.subrange(0, prefix.len() as int)
            == prefix,
        BrowseStepV::Finished(Ok(BrowseOutcomeV::Entries(rs))) => rs.len() >= prefix.len() && rs.subrange(
            0,
            prefix.len() as int,
        ) == prefix,
        _ => true,
    }
}

proof fn lemma_walk_keeps_results(m: BrowseV)
    ensures
        results_start_with(walk_spec(m), m.results),
    decreases m.frames.len(), (if m.frames.len() > 0 { m.frames.last().items.len() - m.frames.last().next } else { 0 }),
{
    if m.frames.len() == 0 {
        assert(m.results.subrange(0, m.results.len() as int) =~= m.results);
    } else {
        let f = m.frames.last();
        let popped = BrowseV { frames: m.frames.drop_last(), ..m };
        if m.results.len() >= MAX_SEARCH_RESULTS || m.visited >= MAX_WALK_FILES {
            lemma_walk_keeps_results(popped);
        } else if f.next < 0 || f.next >= f.items.len() {
            if f.complete {
                lemma_walk_keeps_results(popped);
            }
        } else {
            let it = f.items[f.next];
            let m1 = BrowseV {
                visited: m.visited + 1,
                frames: m.frames.update(m.frames.len() - 1, SearchFrameV { next: f.next + 1, ..f }),
                ..m
            };
            assert(m1.frames.last() == SearchFrameV { next: f.next + 1, ..f });
            assert(m.results.subrange(0, m.results.len() as int) =~= m.results);
            if let Some(k) = it.kind {
                if k.is_symlink {
                    lemma_walk_keeps_results(m1);
                } else if let Some(meta) = it.meta {
                    let name_match = contains_text(unicode_lower(it.name), search_query(m.op));
                    if !(search_content(m.op) && k.is_file && meta.len <= MAX_SEARCH_FILE_BYTES) {
                        if let Ok(m2) = matched_spec(m1, it, name_match) {
                            assert(m2.results.subrange(0, m.results.len() as int) =~= m.results);
                            lemma_walk_keeps_results(m2);
                            if !(k.is_dir && can_descend(m2)) {
                                let s = walk_spec(m2);
                                if let BrowseStepV::Ask(m3, _) = s {
                                    assert(m3.results.subrange(0, m.results.len() as int) =~= m3.results.subrange(
                                        0,
                                        m2.results.len() as int,
                                    ).subrange(0, m.results.len() as int));
                                }
                                if let BrowseStepV::Finished(Ok(BrowseOutcomeV::Entries(rs))) = s {
                                    assert(rs.subrange(0, m.results.len() as int) =~= rs.subrange(
                                        0,
                                        m2.results.len() as int,
                                    ).subrange(0, m.results.len() as int));
                                }
                            }
                        }
                    }
                }
            }
        }
    }
}

/// The entry a search reports for a matching item.
pub open spec fn search_hit(it: DirItemV, rel: Seq<char>, k: EntryKind, f: FileMeta) -> RemoteFileEntryV {
    RemoteFileEntryV {
        name: it.name,
        relative_path: rel,
        kind: if k.is_dir { "directory"@ } else { "file"@ },
        size_bytes: f.len,
        modified_ms: f.modified_ms,
    }
}

/// A search reports every match it meets, of whatever kind, while it holds
/// fewer than 200 results: when the walk comes to an entry that is no
/// link, whose metadata is known and whose lower-cased name holds the
/// query, and whose content is not to be searched (it is a directory, or
/// the content is not searched, or it is too large), that entry — a
/// directory as a directory, a file as a file, with its name, relative
/// path, size and time — is added right after the results held so far, and
/// stays there in whatever the step leads to. An entry whose content was
/// searched is added in the same way when its name or its content matched.
pub proof fn lemma_search_reports_every_match(m: BrowseV, it: DirItemV, k: EntryKind, f: FileMeta, rel: Seq<char>, content_match: bool)
    requires
        it.kind == Some(k),
        it.meta == Some(f),
        !k.is_symlink,
        relative_spec(m.root, it.path) == Some(rel),
    ensures
        ({
            let fr = m.frames.last();
            &&& m.frames.len() > 0 && m.results.len() < MAX_SEARCH_RESULTS && m.visited < MAX_WALK_FILES
            &&& 0 <= fr.next < fr.items.len() && fr.items[fr.next] == it
            &&& contains_text(unicode_lower(it.name), search_query(m.op))
            &&& !(search_content(m.op) && k.is_file && f.len <= MAX_SEARCH_FILE_BYTES)
        }) ==> results_start_with(walk_spec(m), m.results.push(search_hit(it, rel, k, f))),
        m.name_match || content_match ==> results_start_with(
            content_done_spec(m, it, content_match),
            m.results.push(search_hit(it, rel, k, f)),
        ),
{
    let fr = m.frames.last();
    let hit = search_hit(it, rel, k, f);
    let pre = m.results.push(hit);
    if m.frames.len() > 0 && m.results.len() < MAX_SEARCH_RESULTS && m.visited < MAX_WALK_FILES && 0 <= fr.next
        < fr.items.len() && fr.items[fr.next] == it {
        let m1 = BrowseV {
            visited: m.visited + 1,
            frames: m.frames.update(m.frames.len() - 1, SearchFrameV { next: fr.next + 1, ..fr }),
            ..m
        };
        let m2 = BrowseV { results: m1.results.push(hit), ..m1 };
        assert(m2.results.subrange(0, pre.len() as int) =~= pre);
        lemma_walk_keeps_results(m2);
        let s = walk_spec(m2);
        if let BrowseStepV::Ask(m3, _) = s {
            assert(m3.results.subrange(0, pre.len() as int) =~= m3.results.subrange(0, m2.results.len() as int));
        }
    }
    if m.name_match || content_match {
        let m2 = BrowseV { results: pre, ..m };
        assert(m2.results.subrange(0, pre.len() as int) =~= pre);
        lemma_walk_keeps_results(m2);
    }
}

/// An image preview is a `data:` URL labelled by the image's lower-cased
/// extension: `image/jpeg` for `jpg` and `jpeg`, `image/gif`, `image/webp`,
/// `image/bmp`, `image/svg+xml` for `svg`, and `image/png` otherwise,
/// followed by the file's bytes in base64.
pub proof fn lemma_image_preview_label(path: Seq<char>, bytes: Seq<u8>)
    ensures
        (lower_extension(path) == Some("jpg"@) || lower_extension(path) == Some("jpeg"@)) ==> preview_content(
            path,
            true,
            bytes,
        ) == Ok::<Seq<char>, Seq<char>>("data:"@ + "image/jpeg"@ + ";base64,"@ + b64_encode(bytes)),
        lower_extension(path) == Some("gif"@) ==> preview_content(path, true, bytes) == Ok::<Seq<char>, Seq<char>>(
            "data:"@ + "image/gif"@ + ";base64,"@ + b64_encode(bytes),
        ),
        lower_extension(path) == Some("webp"@) ==> preview_content(path, true, bytes) == Ok::<Seq<char>, Seq<char>>(
            "data:"@ + "image/webp"@ + ";base64,"@ + b64_encode(bytes),
        ),
        lower_extension(path) == Some("bmp"@) ==> preview_content(path, true, bytes) == Ok::<Seq<char>, Seq<char>>(
            "data:"@ + "image/bmp"@ + ";base64,"@ + b64_encode(bytes),
        ),
        lower_extension(path) == Some("svg"@) ==> preview_content(path, true, bytes) == Ok::<Seq<char>, Seq<char>>(
            "data:"@ + "image/svg+xml"@ + ";base64,"@ + b64_encode(bytes),
        ),
        !(lower_extension(path) matches Some(x) && (x == "jpg"@ || x == "jpeg"@ || x == "gif"@ || x == "webp"@
            || x == "bmp"@ || x == "svg"@)) ==> preview_content(path, true, bytes) == Ok::<Seq<char>, Seq<char>>(
            "data:"@ + "image/png"@ + ";base64,"@ + b64_encode(bytes),
        ),
{
    lemma_image_mime_table(path);
}

} // verus!
