//! The file-system requests the agent's operations make, and the replies
//! they are given. An operation is a state machine: it hands out one
//! request at a time, and whoever runs it performs the request on the real
//! file system and hands the reply back.

use vstd::prelude::*;

verus! {

/// What `symlink_metadata` or `metadata` tells of a path.
#[derive(Clone, Copy)]
pub struct FileMeta {
    pub is_symlink: bool,
    pub is_dir: bool,
    pub is_file: bool,
    pub len: u64,
    /// Modification time in milliseconds since the Unix epoch, when known.
    pub modified_ms: Option<i64>,
    /// Modification time in nanoseconds since the Unix epoch (negative
    /// before it), at the precision the file system keeps, when known.
    pub modified_ns: Option<i128>,
}

/// The answer to a metadata request.
#[derive(Clone, Copy)]
pub enum MetaReply {
    Found(FileMeta),
    /// The path does not exist.
    Missing,
    /// Any other failure.
    Failed,
}

/// The file type of a directory entry.
#[derive(Clone, Copy)]
pub struct EntryKind {
    pub is_symlink: bool,
    pub is_dir: bool,
    pub is_file: bool,
}

/// One entry of a directory listing.
pub struct DirItem {
    pub name: String,
    pub path: String,
    /// `None` when the entry's file type could not be read.
    pub kind: Option<EntryKind>,
    /// `None` when the entry's metadata could not be read.
    pub meta: Option<FileMeta>,
}

/// The entries of a directory in the order the system gave them;
/// `complete` is false when reading stopped on an error after `items`.
pub struct Listing {
    pub items: Vec<DirItem>,
    pub complete: bool,
}

pub enum FsRequest {
    Canonicalize(String),
    /// Metadata, following symbolic links.
    Metadata(String),
    /// Metadata of the path itself.
    SymlinkMetadata(String),
    CreateDir(String),
    /// Create or truncate the file and write all of the data.
    WriteFile(String, Vec<u8>),
    /// Open an existing file for writing and write the data at the offset.
    WriteAt(String, u64, Vec<u8>),
    /// Read exactly the given number of bytes from the offset.
    ReadAt(String, u64, u64),
    ReadFile(String),
    RemoveDirAll(String),
    RemoveFile(String),
    Rename(String, String),
    CopyFile(String, String),
    ReadDir(String),
    ImageDimensions(String),
    /// Remove an empty directory.
    RemoveDir(String),
    /// Flush and sync the open file of the named upload.
    SyncUpload(String),
    /// Create the directory and any missing ancestors.
    CreateDirAll(String),
    /// Make a directory private to its owner (mode 0700 on Unix).
    SetPrivateDir(String),
    /// Make a file private to its owner (mode 0600 on Unix).
    SetPrivateFile(String),
    /// Create a directory, telling an existing one apart.
    MakeDir(String),
    /// Create a new file and keep it open for the upload whose temporary
    /// path it is, telling an existing one apart.
    MakeNewFile(String),
    /// Remove the expired attachments under the cache root.
    SweepCache(String),
    /// Read the file from its start, at most the given number of bytes.
    ReadPrefix(String, u64),
}

/// The answer to `MakeDir` and `MakeNewFile`.
#[derive(Clone, Copy)]
pub enum MakeReply {
    Made,
    /// Something already exists at the path.
    Exists,
    /// Any other failure.
    Failed,
}

pub enum FsReply {
    /// To `Canonicalize`.
    Path(Option<String>),
    /// To `Metadata` and `SymlinkMetadata`.
    Meta(MetaReply),
    /// To the requests that change the file system: whether they succeeded.
    Done(bool),
    /// To `ReadAt`, `ReadFile` and `ReadPrefix`.
    Bytes(Option<Vec<u8>>),
    /// To `ReadDir`.
    Entries(Listing),
    /// To `ImageDimensions`.
    Dimensions(Option<(u32, u32)>),
    /// To `MakeDir` and `MakeNewFile`.
    Made(MakeReply),
}

#[verifier::ext_equal]
pub struct DirItemV {
    pub name: Seq<char>,
    pub path: Seq<char>,
    pub kind: Option<EntryKind>,
    pub meta: Option<FileMeta>,
}

impl View for DirItem {
    type V = DirItemV;

    open spec fn view(&self) -> DirItemV {
        DirItemV { name: self.name@, path: self.path@, kind: self.kind, meta: self.meta }
    }
}

pub open spec fn items_view(items: Seq<DirItem>) -> Seq<DirItemV> {
    items.map_values(|i: DirItem| i@)
}

#[verifier::ext_equal]
pub struct ListingV {
    pub items: Seq<DirItemV>,
    pub complete: bool,
}

impl View for Listing {
    type V = ListingV;

    open spec fn view(&self) -> ListingV {
        ListingV { items: items_view(self.items@), complete: self.complete }
    }
}

pub enum FsRequestV {
    Canonicalize(Seq<char>),
    Metadata(Seq<char>),
    SymlinkMetadata(Seq<char>),
    CreateDir(Seq<char>),
    WriteFile(Seq<char>, Seq<u8>),
    WriteAt(Seq<char>, u64, Seq<u8>),
    ReadAt(Seq<char>, u64, u64),
    ReadFile(Seq<char>),
    RemoveDirAll(Seq<char>),
    RemoveFile(Seq<char>),
    Rename(Seq<char>, Seq<char>),
    CopyFile(Seq<char>, Seq<char>),
    ReadDir(Seq<char>),
    ImageDimensions(Seq<char>),
    RemoveDir(Seq<char>),
    SyncUpload(Seq<char>),
    CreateDirAll(Seq<char>),
    SetPrivateDir(Seq<char>),
    SetPrivateFile(Seq<char>),
    MakeDir(Seq<char>),
    MakeNewFile(Seq<char>),
    SweepCache(Seq<char>),
    ReadPrefix(Seq<char>, u64),
}

impl View for FsRequest {
    type V = FsRequestV;

    open spec fn view(&self) -> FsRequestV {
        match self {
            FsRequest::Canonicalize(p) => FsRequestV::Canonicalize(p@),
            FsRequest::Metadata(p) => FsRequestV::Metadata(p@),
            FsRequest::SymlinkMetadata(p) => FsRequestV::SymlinkMetadata(p@),
            FsRequest::CreateDir(p) => FsRequestV::CreateDir(p@),
            FsRequest::WriteFile(p, d) => FsRequestV::WriteFile(p@, d@),
            FsRequest::WriteAt(p, o, d) => FsRequestV::WriteAt(p@, *o, d@),
            FsRequest::ReadAt(p, o, n) => FsRequestV::ReadAt(p@, *o, *n),
            FsRequest::ReadFile(p) => FsRequestV::ReadFile(p@),
            FsRequest::RemoveDirAll(p) => FsRequestV::RemoveDirAll(p@),
            FsRequest::RemoveFile(p) => FsRequestV::RemoveFile(p@),
            FsRequest::Rename(a, b) => FsRequestV::Rename(a@, b@),
            FsRequest::CopyFile(a, b) => FsRequestV::CopyFile(a@, b@),
            FsRequest::ReadDir(p) => FsRequestV::ReadDir(p@),
            FsRequest::ImageDimensions(p) => FsRequestV::ImageDimensions(p@),
            FsRequest::RemoveDir(p) => FsRequestV::RemoveDir(p@),
            FsRequest::SyncUpload(p) => FsRequestV::SyncUpload(p@),
            FsRequest::CreateDirAll(p) => FsRequestV::CreateDirAll(p@),
            FsRequest::SetPrivateDir(p) => FsRequestV::SetPrivateDir(p@),
            FsRequest::SetPrivateFile(p) => FsRequestV::SetPrivateFile(p@),
            FsRequest::MakeDir(p) => FsRequestV::MakeDir(p@),
            FsRequest::MakeNewFile(p) => FsRequestV::MakeNewFile(p@),
            FsRequest::SweepCache(p) => FsRequestV::SweepCache(p@),
            FsRequest::ReadPrefix(p, n) => FsRequestV::ReadPrefix(p@, *n),
        }
    }
}

pub enum FsReplyV {
    Path(Option<Seq<char>>),
    Meta(MetaReply),
    Done(bool),
    Bytes(Option<Seq<u8>>),
    Entries(ListingV),
    Dimensions(Option<(u32, u32)>),
    Made(MakeReply),
}

impl View for FsReply {
    type V = FsReplyV;

    open spec fn view(&self) -> FsReplyV {
        match self {
            FsReply::Path(p) => FsReplyV::Path(
                match p {
                    Some(s) => Some(s@),
                    None => None,
                },
            ),
            FsReply::Meta(m) => FsReplyV::Meta(*m),
            FsReply::Done(b) => FsReplyV::Done(*b),
            FsReply::Bytes(b) => FsReplyV::Bytes(
                match b {
                    Some(v) => Some(v@),
                    None => None,
                },
            ),
            FsReply::Entries(l) => FsReplyV::Entries(l@),
            FsReply::Dimensions(d) => FsReplyV::Dimensions(*d),
            FsReply::Made(m) => FsReplyV::Made(*m),
        }
    }
}

/// A reply read as the answer to `Canonicalize`; any other reply counts as a
/// failure.
pub open spec fn reply_path(r: FsReplyV) -> Option<Seq<char>> {
    match r {
        FsReplyV::Path(p) => p,
        _ => None,
    }
}

/// A reply read as the answer to a metadata request.
pub open spec fn reply_meta(r: FsReplyV) -> MetaReply {
    match r {
        FsReplyV::Meta(m) => m,
        _ => MetaReply::Failed,
    }
}

/// A reply read as the outcome of a change to the file system.
pub open spec fn reply_done(r: FsReplyV) -> bool {
    match r {
        FsReplyV::Done(b) => b,
        _ => false,
    }
}

pub open spec fn reply_bytes(r: FsReplyV) -> Option<Seq<u8>> {
    match r {
        FsReplyV::Bytes(b) => b,
        _ => None,
    }
}

pub open spec fn reply_listing(r: FsReplyV) -> ListingV {
    match r {
        FsReplyV::Entries(l) => l,
        _ => ListingV { items: Seq::empty(), complete: false },
    }
}

pub open spec fn reply_dimensions(r: FsReplyV) -> Option<(u32, u32)> {
    match r {
        FsReplyV::Dimensions(d) => d,
        _ => None,
    }
}

pub open spec fn reply_made(r: FsReplyV) -> MakeReply {
    match r {
        FsReplyV::Made(m) => m,
        _ => MakeReply::Failed,
    }
}

pub fn take_made(r: &FsReply) -> (m: MakeReply)
    ensures
        m == reply_made(r@),
{
    match r {
        FsReply::Made(m) => *m,
        _ => MakeReply::Failed,
    }
}

pub fn take_path(r: FsReply) -> (p: Option<String>)
    ensures
        match reply_path(r@) {
            Some(s) => p matches Some(q) && q@ == s,
            None => p is None,
        },
{
    match r {
        FsReply::Path(p) => p,
        _ => None,
    }
}

pub fn take_meta(r: &FsReply) -> (m: MetaReply)
    ensures
        m == reply_meta(r@),
{
    match r {
        FsReply::Meta(m) => *m,
        _ => MetaReply::Failed,
    }
}

pub fn take_done(r: &FsReply) -> (b: bool)
    ensures
        b == reply_done(r@),
{
    match r {
        FsReply::Done(b) => *b,
        _ => false,
    }
}

pub fn take_bytes(r: FsReply) -> (b: Option<Vec<u8>>)
    ensures
        match reply_bytes(r@) {
            Some(s) => b matches Some(v) && v@ == s,
            None => b is None,
        },
{
    match r {
        FsReply::Bytes(b) => b,
        _ => None,
    }
}

pub fn take_listing(r: FsReply) -> (l: Listing)
    ensures
        l@ == reply_listing(r@),
{
    match r {
        FsReply::Entries(l) => l,
        _ => {
            let l = Listing { items: Vec::new(), complete: false };
            proof {
                assert(l@.items =~= Seq::<DirItemV>::empty());
            }
            l
        },
    }
}

pub fn take_dimensions(r: &FsReply) -> (d: Option<(u32, u32)>)
    ensures
        d == reply_dimensions(r@),
{
    match r {
        FsReply::Dimensions(d) => *d,
        _ => None,
    }
}

} // verus!
