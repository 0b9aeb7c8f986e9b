use std::collections::BTreeMap;

use sha2::Digest;

use ssh_agent::browse::{BrowseOutcome, BrowseStep};
use ssh_agent::cache_sweep::{CacheSweep, SweepStep};
use ssh_agent::encoding::decode_standard;
use ssh_agent::file_manage::{
    copy, create, delete, move_entry, read_bytes, rename, stat, write_bytes, write_text,
    FileCreateRequest, FileDeleteRequest, FileReadBytesRequest, FileRenameRequest,
    FileStatRequest, FileTransferRequest, FileWriteBytesRequest, FileWriteTextRequest,
    ManageOutcome, ManageStep, ReadBytesOutput,
};
use ssh_agent::files::{
    list, read, search, FileAttachAbortRequest, FileAttachBeginRequest, FileAttachChunkRequest,
    FileAttachFinishRequest, FileListRequest, FileReadRequest, FileSearchRequest,
    RemoteFileEntry, RemoteFileRead, MAX_ATTACHMENT_BYTES, MAX_ENTRIES, MAX_SEARCH_RESULTS,
    MAX_TEXT_READ_BYTES,
};
use ssh_agent::fsproto::{
    DirItem, EntryKind, FileMeta, FsReply, FsRequest, Listing, MakeReply, MetaReply,
};
use ssh_agent::paths::{check_relative_text, check_root_text};
use ssh_agent::upload_begin::BeginStep;
use ssh_agent::upload_finish::FinishStep;
use ssh_agent::uploads::{AttachmentKind, FileAttachmentUploads};

const CHUNK: usize = 512 * 1024;

#[derive(Clone)]
enum Node {
    Dir,
    File(Vec<u8>),
    Link(String),
}

/// A file system held in memory: absolute paths to nodes and their
/// modification times.
struct FakeFs {
    nodes: BTreeMap<String, (Node, i64)>,
    now: i64,
}

fn components(path: &str) -> Vec<String> {
    let mut out: Vec<String> = Vec::new();
    for part in path.split('/') {
        if part.is_empty() || part == "." {
            continue;
        }
        if part == ".." {
            out.pop();
        } else {
            out.push(part.to_string());
        }
    }
    out
}

fn spell(parts: &[String]) -> String {
    if parts.is_empty() {
        "/".to_string()
    } else {
        format!("/{}", parts.join("/"))
    }
}

fn parent_of(path: &str) -> String {
    let mut parts = components(path);
    parts.pop();
    spell(&parts)
}

fn name_of(path: &str) -> String {
    components(path).last().cloned().unwrap_or_default()
}

fn b64(data: &[u8]) -> String {
    ssh_agent::files::base64_encode(data)
}

fn png_bytes() -> Vec<u8> {
    let img = image::RgbaImage::new(1, 1);
    let mut out = std::io::Cursor::new(Vec::new());
    img.write_to(&mut out, image::ImageFormat::Png).unwrap();
    out.into_inner()
}

impl FakeFs {
    fn new() -> FakeFs {
        let mut nodes = BTreeMap::new();
        nodes.insert("/".to_string(), (Node::Dir, 0));
        FakeFs { nodes, now: 1_000 }
    }

    fn mkdir(&mut self, path: &str) {
        let p = spell(&components(path));
        self.nodes.insert(p, (Node::Dir, self.now));
    }

    fn write(&mut self, path: &str, data: &[u8]) {
        let p = spell(&components(path));
        self.nodes.insert(p, (Node::File(data.to_vec()), self.now));
    }

    fn link(&mut self, path: &str, target: &str) {
        let p = spell(&components(path));
        self.nodes.insert(p, (Node::Link(target.to_string()), self.now));
    }

    fn bytes(&self, path: &str) -> Option<Vec<u8>> {
        match self.nodes.get(&self.resolve(path)?) {
            Some((Node::File(d), _)) => Some(d.clone()),
            _ => None,
        }
    }

    fn has_node(&self, path: &str) -> bool {
        self.nodes.contains_key(&spell(&components(path)))
    }

    fn children(&self, dir: &str) -> Vec<String> {
        let d = spell(&components(dir));
        self.nodes
            .keys()
            .filter(|k| k.as_str() != "/" && parent_of(k) == d)
            .map(|k| name_of(k))
            .collect()
    }

    /// The path with every symbolic link resolved, if it exists.
    fn resolve(&self, path: &str) -> Option<String> {
        let mut todo: Vec<String> = components(path);
        todo.reverse();
        let mut done: Vec<String> = Vec::new();
        let mut hops = 0;
        while let Some(part) = todo.pop() {
            let mut next = done.clone();
            next.push(part);
            match self.nodes.get(&spell(&next))? {
                (Node::Link(target), _) => {
                    hops += 1;
                    if hops > 16 {
                        return None;
                    }
                    let mut t = components(target);
                    t.reverse();
                    todo.extend(t);
                    done.clear();
                }
                _ => done = next,
            }
        }
        Some(spell(&done))
    }

    /// The path with the links of its parent resolved, not its own.
    fn locate(&self, path: &str) -> Option<String> {
        let parts = components(path);
        if parts.is_empty() {
            return Some("/".to_string());
        }
        let parent = self.resolve(&parent_of(path))?;
        let mut p = components(&parent);
        p.push(parts.last().unwrap().clone());
        Some(spell(&p))
    }

    fn meta_of(&self, key: &str) -> FileMeta {
        let (node, modified) = self.nodes.get(key).unwrap();
        let (is_symlink, is_dir, is_file, len) = match node {
            Node::Dir => (false, true, false, 0),
            Node::File(d) => (false, false, true, d.len() as u64),
            Node::Link(_) => (true, false, false, 0),
        };
        FileMeta { is_symlink, is_dir, is_file, len, modified_ms: Some(*modified), modified_ns: Some(*modified as i128 * 1_000_000) }
    }

    fn metadata(&self, path: &str, follow: bool) -> MetaReply {
        let key = if follow { self.resolve(path) } else { self.locate(path) };
        match key {
            Some(k) if self.nodes.contains_key(&k) => MetaReply::Found(self.meta_of(&k)),
            _ => MetaReply::Missing,
        }
    }

    fn remove_tree(&mut self, key: &str) {
        let prefix = format!("{}/", key);
        self.nodes.retain(|k, _| k != key && !k.starts_with(&prefix));
    }

    fn make_dir(&mut self, path: &str) -> MakeReply {
        match self.locate(path) {
            Some(k) if self.nodes.contains_key(&k) => MakeReply::Exists,
            Some(k) if matches!(self.nodes.get(&parent_of(&k)), Some((Node::Dir, _))) => {
                self.nodes.insert(k, (Node::Dir, self.now));
                MakeReply::Made
            }
            _ => MakeReply::Failed,
        }
    }

    fn write_file(&mut self, path: &str, data: Vec<u8>) -> bool {
        match self.resolve(&parent_of(path)) {
            Some(parent) if matches!(self.nodes.get(&parent), Some((Node::Dir, _))) => {
                let key = self.resolve(path).unwrap_or_else(|| {
                    let mut p = components(&parent);
                    p.push(name_of(path));
                    spell(&p)
                });
                self.nodes.insert(key, (Node::File(data), self.now));
                true
            }
            _ => false,
        }
    }

    fn listing(&self, dir: &str) -> FsReply {
        let key = match self.resolve(dir) {
            Some(k) if matches!(self.nodes.get(&k), Some((Node::Dir, _))) => k,
            _ => return FsReply::Entries(Listing { items: Vec::new(), complete: false }),
        };
        let items = self
            .children(&key)
            .into_iter()
            .map(|name| {
                let full = if key == "/" { format!("/{}", name) } else { format!("{}/{}", key, name) };
                let m = self.meta_of(&full);
                let path = if dir.ends_with('/') { format!("{}{}", dir, name) } else { format!("{}/{}", dir, name) };
                DirItem {
                    name,
                    path,
                    kind: Some(EntryKind { is_symlink: m.is_symlink, is_dir: m.is_dir, is_file: m.is_file }),
                    meta: Some(m),
                }
            })
            .collect();
        FsReply::Entries(Listing { items, complete: true })
    }

    fn handle(&mut self, q: FsRequest) -> FsReply {
        match q {
            FsRequest::Canonicalize(p) => FsReply::Path(self.resolve(&p)),
            FsRequest::Metadata(p) => FsReply::Meta(self.metadata(&p, true)),
            FsRequest::SymlinkMetadata(p) => FsReply::Meta(self.metadata(&p, false)),
            FsRequest::CreateDir(p) => FsReply::Done(matches!(self.make_dir(&p), MakeReply::Made)),
            FsRequest::MakeDir(p) => FsReply::Made(self.make_dir(&p)),
            FsRequest::CreateDirAll(p) => {
                let parts = components(&p);
                for i in 1..=parts.len() {
                    let sub = spell(&parts[..i]);
                    if !self.nodes.contains_key(&sub) {
                        self.nodes.insert(sub, (Node::Dir, self.now));
                    }
                }
                FsReply::Done(true)
            }
            FsRequest::WriteFile(p, d) => FsReply::Done(self.write_file(&p, d)),
            FsRequest::WriteAt(p, offset, d) => match self.bytes(&p) {
                Some(mut cur) => {
                    let at = offset as usize;
                    if cur.len() < at + d.len() {
                        cur.resize(at + d.len(), 0);
                    }
                    cur[at..at + d.len()].copy_from_slice(&d);
                    FsReply::Done(self.write_file(&p, cur))
                }
                None => FsReply::Done(false),
            },
            FsRequest::ReadAt(p, offset, n) => match self.bytes(&p) {
                Some(cur) if (offset + n) as usize <= cur.len() => {
                    FsReply::Bytes(Some(cur[offset as usize..(offset + n) as usize].to_vec()))
                }
                _ => FsReply::Bytes(None),
            },
            FsRequest::ReadFile(p) => FsReply::Bytes(self.bytes(&p)),
            FsRequest::ReadPrefix(p, n) => FsReply::Bytes(
                self.bytes(&p).map(|d| d[..d.len().min(n as usize)].to_vec()),
            ),
            FsRequest::RemoveDirAll(p) => match self.locate(&p) {
                Some(k) if matches!(self.nodes.get(&k), Some((Node::Dir, _))) => {
                    self.remove_tree(&k);
                    FsReply::Done(true)
                }
                _ => FsReply::Done(false),
            },
            FsRequest::RemoveFile(p) => match self.locate(&p) {
                Some(k) if matches!(self.nodes.get(&k), Some((Node::File(_), _)) | Some((Node::Link(_), _))) => {
                    self.nodes.remove(&k);
                    FsReply::Done(true)
                }
                _ => FsReply::Done(false),
            },
            FsRequest::RemoveDir(p) => match self.locate(&p) {
                Some(k) if matches!(self.nodes.get(&k), Some((Node::Dir, _))) && self.children(&k).is_empty() => {
                    self.nodes.remove(&k);
                    FsReply::Done(true)
                }
                _ => FsReply::Done(false),
            },
            FsRequest::Rename(a, b) => match (self.locate(&a), self.locate(&b)) {
                (Some(from), Some(to)) if self.nodes.contains_key(&from) => {
                    let prefix = format!("{}/", from);
                    let moved: Vec<(String, (Node, i64))> = self
                        .nodes
                        .iter()
                        .filter(|(k, _)| **k == from || k.starts_with(&prefix))
                        .map(|(k, v)| (format!("{}{}", to, &k[from.len()..]), v.clone()))
                        .collect();
                    self.remove_tree(&from);
                    for (k, v) in moved {
                        self.nodes.insert(k, v);
                    }
                    FsReply::Done(true)
                }
                _ => FsReply::Done(false),
            },
            FsRequest::CopyFile(a, b) => match self.bytes(&a) {
                Some(d) => FsReply::Done(self.write_file(&b, d)),
                None => FsReply::Done(false),
            },
            FsRequest::ReadDir(p) => self.listing(&p),
            FsRequest::ImageDimensions(p) => FsReply::Dimensions(self.bytes(&p).and_then(|d| {
                image::ImageReader::new(std::io::Cursor::new(d))
                    .with_guessed_format()
                    .ok()?
                    .into_dimensions()
                    .ok()
            })),
            FsRequest::SyncUpload(_) => FsReply::Done(true),
            FsRequest::SetPrivateDir(_) | FsRequest::SetPrivateFile(_) => FsReply::Done(true),
            FsRequest::MakeNewFile(p) => match self.locate(&p) {
                Some(k) if self.nodes.contains_key(&k) => FsReply::Made(MakeReply::Exists),
                Some(_) => {
                    if self.write_file(&p, Vec::new()) {
                        FsReply::Made(MakeReply::Made)
                    } else {
                        FsReply::Made(MakeReply::Failed)
                    }
                }
                None => FsReply::Made(MakeReply::Failed),
            },
            FsRequest::SweepCache(root) => {
                let now = self.now as i128 * 1_000_000;
                let mut step = CacheSweep::start_at(root, now);
                loop {
                    match step {
                        SweepStep::Ask(m, q) => {
                            let r = self.handle(q);
                            step = m.resume(r);
                        }
                        SweepStep::Finished(r) => return FsReply::Done(r.is_ok()),
                    }
                }
            }
        }
    }

    fn manage(&mut self, mut step: ManageStep) -> Result<ManageOutcome, String> {
        loop {
            match step {
                ManageStep::Ask(m, q) => {
                    let r = self.handle(q);
                    step = m.resume(r);
                }
                ManageStep::Finished(r) => return r,
            }
        }
    }

    fn browse(&mut self, mut step: BrowseStep) -> Result<BrowseOutcome, String> {
        loop {
            match step {
                BrowseStep::Ask(m, q) => {
                    let r = self.handle(q);
                    step = m.resume(r);
                }
                BrowseStep::Finished(r) => return r,
            }
        }
    }

    fn begin(&mut self, mut step: BeginStep) -> (FileAttachmentUploads, Result<String, String>) {
        loop {
            match step {
                BeginStep::Ask(m, q) => {
                    let r = self.handle(q);
                    step = m.resume(r);
                }
                BeginStep::Finished(u, r) => return (u, r.map(|b| b.upload_id)),
            }
        }
    }

    fn finish(&mut self, mut step: FinishStep) -> Result<(String, u64), String> {
        loop {
            match step {
                FinishStep::Ask(m, q) => {
                    let r = self.handle(q);
                    step = m.resume(r);
                }
                FinishStep::Finished(r) => return r.map(|a| (a.path, a.size_bytes)),
            }
        }
    }

    /// An upload's chunk as the agent handles it: checked, written to the
    /// temporary file, recorded.
    fn append(&mut self, uploads: &mut FileAttachmentUploads, upload_id: &str, offset: u64, data: &[u8]) -> Result<u64, String> {
        let w = uploads.append(&FileAttachChunkRequest {
            upload_id: upload_id.to_string(),
            offset,
            data_base64: b64(data),
        })?;
        let mut cur = self.bytes(&w.temporary_path).unwrap();
        cur.extend_from_slice(&w.data);
        self.write_file(&w.temporary_path, cur);
        uploads.record_chunk(&w.upload_id, w.offset, &w.data)
    }
}

fn entry(r: Result<ManageOutcome, String>) -> RemoteFileEntry {
    match r.unwrap() {
        ManageOutcome::Entry(e) => e,
        _ => panic!("not an entry"),
    }
}

fn bytes_out(r: Result<ManageOutcome, String>) -> ReadBytesOutput {
    match r.unwrap() {
        ManageOutcome::Bytes(b) => b,
        _ => panic!("not bytes"),
    }
}

fn entries(r: Result<BrowseOutcome, String>) -> Vec<RemoteFileEntry> {
    match r.unwrap() {
        BrowseOutcome::Entries(e) => e,
        _ => panic!("not entries"),
    }
}

fn file_read(r: Result<BrowseOutcome, String>) -> RemoteFileRead {
    match r.unwrap() {
        BrowseOutcome::File(f) => f,
        _ => panic!("not a file"),
    }
}

fn fs_with_root() -> FakeFs {
    let mut fs = FakeFs::new();
    fs.mkdir("/work");
    fs
}

fn hex_digest(bytes: &[u8]) -> String {
    format!("{:x}", sha2::Sha256::digest(bytes))
}

fn attach_request(bytes: &[u8]) -> FileAttachBeginRequest {
    FileAttachBeginRequest {
        session_id: "session-1".to_string(),
        file_name: "screenshot.png".to_string(),
        size_bytes: bytes.len() as u64,
        sha256: hex_digest(bytes),
    }
}

#[test]
fn paths_reject_traversal_and_absolute_relative_refs() {
    assert!(check_root_text("relative").is_err());
    assert!(check_relative_text("../secret").is_err());
    assert!(check_relative_text("/etc/passwd").is_err());
    let mut fs = fs_with_root();
    let err = fs
        .browse(read(FileReadRequest { root_path: "/work".into(), relative_path: "../secret".into() }))
        .err()
        .unwrap();
    assert_eq!(err, "remote_file_path_invalid");
}

#[test]
fn symlink_entries_are_hidden_and_cannot_escape() {
    let mut fs = fs_with_root();
    fs.mkdir("/outside");
    fs.write("/outside/secret.txt", b"secret");
    fs.link("/work/escape.txt", "/outside/secret.txt");
    let listed = entries(fs.browse(list(FileListRequest { root_path: "/work".into(), relative_path: String::new() })));
    assert!(listed.is_empty());
    assert!(fs
        .browse(read(FileReadRequest { root_path: "/work".into(), relative_path: "escape.txt".into() }))
        .is_err());
}

#[test]
fn read_rejects_binary_and_oversized_files() {
    let mut fs = fs_with_root();
    fs.write("/work/binary.bin", &[0xff, 0xfe]);
    fs.write("/work/large.txt", &vec![b'a'; MAX_TEXT_READ_BYTES as usize + 1]);
    assert_eq!(
        fs.browse(read(FileReadRequest { root_path: "/work".into(), relative_path: "binary.bin".into() }))
            .err()
            .unwrap(),
        "remote_file_binary"
    );
    assert_eq!(
        fs.browse(read(FileReadRequest { root_path: "/work".into(), relative_path: "large.txt".into() }))
            .err()
            .unwrap(),
        "remote_file_too_large"
    );
}

#[test]
fn list_and_search_enforce_result_limits() {
    let mut fs = fs_with_root();
    for index in 0..(MAX_ENTRIES + 20) {
        fs.write(&format!("/work/match-{index:04}.txt"), b"needle");
    }
    assert_eq!(
        entries(fs.browse(list(FileListRequest { root_path: "/work".into(), relative_path: String::new() }))).len(),
        MAX_ENTRIES
    );
    assert_eq!(
        entries(fs.browse(search(FileSearchRequest { root_path: "/work".into(), query: "match".into(), content: false }))).len(),
        MAX_SEARCH_RESULTS
    );
}

#[test]
fn image_read_returns_data_url() {
    let mut fs = fs_with_root();
    fs.write("/work/pixel.png", &png_bytes());
    let result = file_read(fs.browse(read(FileReadRequest { root_path: "/work".into(), relative_path: "pixel.png".into() })));
    assert_eq!(result.kind, "image");
    assert!(result.content.starts_with("data:image/png;base64,"));
}

#[test]
fn read_rejects_video_before_reading_content() {
    let mut fs = fs_with_root();
    fs.write("/work/clip.mp4", b"not-a-video");
    assert_eq!(
        fs.browse(read(FileReadRequest { root_path: "/work".into(), relative_path: "clip.mp4".into() }))
            .err()
            .unwrap(),
        "video_preview_unsupported"
    );
}

#[test]
fn text_read_reports_content_and_relative_path() {
    let mut fs = fs_with_root();
    fs.mkdir("/work/docs");
    fs.write("/work/docs/notes.txt", "héllo".as_bytes());
    let result = file_read(fs.browse(read(FileReadRequest { root_path: "/work".into(), relative_path: "docs/notes.txt".into() })));
    assert_eq!(result.kind, "text");
    assert_eq!(result.content, "héllo");
    assert_eq!(result.relative_path, "docs/notes.txt");
    assert_eq!(result.size_bytes, 6);
    assert!(!result.truncated);
}

#[test]
fn listing_puts_files_first_then_orders_by_lowercase_name() {
    let mut fs = fs_with_root();
    fs.mkdir("/work/Alpha");
    fs.write("/work/beta.txt", b"b");
    fs.write("/work/Aardvark.txt", b"a");
    fs.mkdir("/work/zeta");
    let names: Vec<String> = entries(fs.browse(list(FileListRequest { root_path: "/work".into(), relative_path: String::new() })))
        .into_iter()
        .map(|e| format!("{}:{}", e.kind, e.name))
        .collect();
    assert_eq!(names, vec!["file:Aardvark.txt", "file:beta.txt", "directory:Alpha", "directory:zeta"]);
}

#[test]
fn relative_paths_spell_backslashes_as_slashes() {
    let mut fs = fs_with_root();
    fs.mkdir("/work/docs");
    fs.write("/work/docs/a\\b.txt", b"x");
    let found = entries(fs.browse(list(FileListRequest { root_path: "/work".into(), relative_path: "docs".into() })));
    assert_eq!(found.len(), 1);
    assert_eq!(found[0].name, "a\\b.txt");
    assert_eq!(found[0].relative_path, "docs/a/b.txt");
}

#[test]
fn search_matches_names_and_contents_in_subdirectories() {
    let mut fs = fs_with_root();
    fs.mkdir("/work/src");
    fs.write("/work/src/main.rs", b"fn NEEDLE() {}");
    fs.write("/work/needle.md", b"nothing");
    fs.write("/work/other.txt", b"plain");
    let by_name = entries(fs.browse(search(FileSearchRequest { root_path: "/work".into(), query: "  Needle ".into(), content: false })));
    assert_eq!(by_name.iter().map(|e| e.relative_path.clone()).collect::<Vec<_>>(), vec!["needle.md"]);
    let mut by_content: Vec<String> = entries(fs.browse(search(FileSearchRequest { root_path: "/work".into(), query: "needle".into(), content: true })))
        .into_iter()
        .map(|e| e.relative_path)
        .collect();
    by_content.sort();
    assert_eq!(by_content, vec!["needle.md", "src/main.rs"]);
    assert!(entries(fs.browse(search(FileSearchRequest { root_path: "/work".into(), query: "n".into(), content: true }))).is_empty());
}

#[test]
fn create_rename_copy_move_and_delete_stay_inside_root() {
    let mut fs = fs_with_root();
    let root_path = "/work".to_string();
    entry(fs.manage(create(FileCreateRequest {
        root_path: root_path.clone(),
        parent_path: String::new(),
        name: "notes.txt".into(),
        overwrite: false,
        kind: "file".into(),
    })));
    entry(fs.manage(write_text(FileWriteTextRequest {
        root_path: root_path.clone(),
        relative_path: "notes.txt".into(),
        content: "hello".into(),
    })));
    entry(fs.manage(rename(FileRenameRequest {
        root_path: root_path.clone(),
        relative_path: "notes.txt".into(),
        new_name: "hello.txt".into(),
        overwrite: false,
    })));
    entry(fs.manage(create(FileCreateRequest {
        root_path: root_path.clone(),
        parent_path: String::new(),
        name: "docs".into(),
        overwrite: false,
        kind: "directory".into(),
    })));
    entry(fs.manage(copy(FileTransferRequest {
        root_path: root_path.clone(),
        source_path: "hello.txt".into(),
        target_parent_path: "docs".into(),
        name: "hello.txt".into(),
        overwrite: false,
    })));
    assert_eq!(fs.bytes("/work/docs/hello.txt").unwrap(), b"hello");
    entry(fs.manage(move_entry(FileTransferRequest {
        root_path: root_path.clone(),
        source_path: "hello.txt".into(),
        target_parent_path: "docs".into(),
        name: "moved.txt".into(),
        overwrite: false,
    })));
    assert!(!fs.has_node("/work/hello.txt"));
    fs.manage(delete(FileDeleteRequest { root_path: root_path.clone(), relative_path: "docs/moved.txt".into() }))
        .unwrap();
    assert!(!fs.has_node("/work/docs/moved.txt"));
    assert_eq!(
        fs.manage(delete(FileDeleteRequest { root_path, relative_path: String::new() })).err().unwrap(),
        "cannot_delete_root"
    );
}

#[test]
fn bytes_round_trip_and_overwrite_guard() {
    let mut fs = fs_with_root();
    let root_path = "/work".to_string();
    entry(fs.manage(write_bytes(FileWriteBytesRequest {
        root_path: root_path.clone(),
        parent_path: String::new(),
        name: "data.bin".into(),
        data_base64: b64(b"payload"),
        overwrite: false,
        offset: 0,
    })));
    assert_eq!(
        fs.manage(write_bytes(FileWriteBytesRequest {
            root_path: root_path.clone(),
            parent_path: String::new(),
            name: "data.bin".into(),
            data_base64: b64(b"other"),
            overwrite: false,
            offset: 0,
        }))
        .err()
        .unwrap(),
        "target_exists"
    );
    let payload = bytes_out(fs.manage(read_bytes(FileReadBytesRequest {
        root_path,
        relative_path: "data.bin".into(),
        offset: 0,
        length: 0,
    })));
    assert_eq!(payload.size_bytes, 7);
    assert!(payload.eof);
    assert_eq!(payload.data_base64, b64(b"payload"));
}

#[test]
fn bytes_round_trip_uses_512kib_chunks() {
    let mut fs = fs_with_root();
    let root_path = "/work".to_string();
    let first = vec![0xABu8; CHUNK];
    let second = vec![0xCDu8; 128 * 1024];
    entry(fs.manage(write_bytes(FileWriteBytesRequest {
        root_path: root_path.clone(),
        parent_path: String::new(),
        name: "chunk.bin".into(),
        data_base64: b64(&first),
        overwrite: false,
        offset: 0,
    })));
    entry(fs.manage(write_bytes(FileWriteBytesRequest {
        root_path: root_path.clone(),
        parent_path: String::new(),
        name: "chunk.bin".into(),
        data_base64: b64(&second),
        overwrite: false,
        offset: first.len() as u64,
    })));
    assert_eq!(
        fs.manage(write_bytes(FileWriteBytesRequest {
            root_path: root_path.clone(),
            parent_path: String::new(),
            name: "chunk.bin".into(),
            data_base64: b64(&vec![0u8; CHUNK + 1]),
            overwrite: true,
            offset: 0,
        }))
        .err()
        .unwrap(),
        "remote_file_chunk_too_large"
    );
    let head = bytes_out(fs.manage(read_bytes(FileReadBytesRequest {
        root_path: root_path.clone(),
        relative_path: "chunk.bin".into(),
        offset: 0,
        length: CHUNK as u64,
    })));
    assert_eq!(head.size_bytes, (first.len() + second.len()) as u64);
    assert!(!head.eof);
    assert_eq!(decode_standard(&head.data_base64).unwrap(), first);
    let tail = bytes_out(fs.manage(read_bytes(FileReadBytesRequest {
        root_path,
        relative_path: "chunk.bin".into(),
        offset: first.len() as u64,
        length: CHUNK as u64,
    })));
    assert!(tail.eof);
    assert_eq!(decode_standard(&tail.data_base64).unwrap(), second);
}

#[test]
fn copy_rejects_directory_into_itself() {
    let mut fs = fs_with_root();
    let root_path = "/work".to_string();
    entry(fs.manage(create(FileCreateRequest {
        root_path: root_path.clone(),
        parent_path: String::new(),
        name: "docs".into(),
        overwrite: false,
        kind: "directory".into(),
    })));
    entry(fs.manage(create(FileCreateRequest {
        root_path: root_path.clone(),
        parent_path: "docs".into(),
        name: "nested".into(),
        overwrite: false,
        kind: "directory".into(),
    })));
    assert_eq!(
        fs.manage(copy(FileTransferRequest {
            root_path,
            source_path: "docs".into(),
            target_parent_path: "docs/nested".into(),
            name: "docs".into(),
            overwrite: true,
        }))
        .err()
        .unwrap(),
        "target_inside_source"
    );
}

#[test]
fn copy_of_directory_copies_its_files_and_skips_links() {
    let mut fs = fs_with_root();
    fs.mkdir("/work/src");
    fs.mkdir("/work/src/inner");
    fs.write("/work/src/a.txt", b"a");
    fs.write("/work/src/inner/b.txt", b"b");
    fs.link("/work/src/link", "/work/src/a.txt");
    let e = entry(fs.manage(copy(FileTransferRequest {
        root_path: "/work".into(),
        source_path: "src".into(),
        target_parent_path: String::new(),
        name: "dst".into(),
        overwrite: false,
    })));
    assert_eq!(e.kind, "directory");
    assert_eq!(e.relative_path, "dst");
    assert_eq!(fs.bytes("/work/dst/a.txt").unwrap(), b"a");
    assert_eq!(fs.bytes("/work/dst/inner/b.txt").unwrap(), b"b");
    assert!(!fs.has_node("/work/dst/link"));
}

#[test]
fn stat_reports_root_and_entries() {
    let mut fs = fs_with_root();
    fs.write("/work/a.txt", b"abc");
    let root = entry(fs.manage(stat(FileStatRequest { root_path: "/work".into(), relative_path: String::new() })));
    assert_eq!(root.relative_path, "");
    assert_eq!(root.kind, "directory");
    let file = entry(fs.manage(stat(FileStatRequest { root_path: "/work".into(), relative_path: "a.txt".into() })));
    assert_eq!(file.name, "a.txt");
    assert_eq!(file.size_bytes, 3);
    assert_eq!(file.kind, "file");
}

#[test]
fn attachment_upload_is_chunked_verified_and_committed_under_session_cache() {
    let mut fs = FakeFs::new();
    let bytes = png_bytes();
    let uploads = FileAttachmentUploads::new();
    let (mut uploads, id) = fs.begin(uploads.begin_in_root(attach_request(&bytes), "/tmp/attachments".into(), AttachmentKind::LegacyImage));
    let upload_id = id.unwrap();
    let split = bytes.len() / 2;
    assert_eq!(fs.append(&mut uploads, &upload_id, 0, &bytes[..split]).unwrap(), split as u64);
    fs.append(&mut uploads, &upload_id, split as u64, &bytes[split..]).unwrap();
    let (path, size) = fs.finish(uploads.finish(&FileAttachFinishRequest { upload_id })).unwrap();
    assert!(path.starts_with("/tmp/attachments/session-1/"));
    assert!(path.ends_with(".png"));
    assert_eq!(fs.bytes(&path).unwrap(), bytes);
    assert_eq!(size, bytes.len() as u64);

    let key = path.clone();
    fs.nodes.get_mut(&key).unwrap().1 = 0;
    fs.now = 48 * 60 * 60 * 1000 + 1;
    let (_, again) = fs.begin(uploads.begin_in_root(attach_request(&bytes), "/tmp/attachments".into(), AttachmentKind::LegacyImage));
    assert!(again.is_ok());
    assert!(!fs.has_node(&path));
}

#[test]
fn attachment_upload_rejects_bad_metadata_and_removes_failed_content() {
    let mut fs = FakeFs::new();
    let bytes = png_bytes();
    let uploads = FileAttachmentUploads::new();
    let mut unsupported = attach_request(&bytes);
    unsupported.file_name = "notes.txt".into();
    let (uploads, err) = fs.begin(uploads.begin_in_root(unsupported, "/tmp/attachments".into(), AttachmentKind::LegacyImage));
    assert_eq!(err.err().unwrap(), "attachment_type_unsupported");

    let mut mismatched = attach_request(&bytes);
    mismatched.sha256 = "0".repeat(64);
    let (mut uploads, id) = fs.begin(uploads.begin_in_root(mismatched, "/tmp/attachments".into(), AttachmentKind::LegacyImage));
    let upload_id = id.unwrap();
    fs.append(&mut uploads, &upload_id, 0, &bytes).unwrap();
    assert_eq!(
        fs.finish(uploads.finish(&FileAttachFinishRequest { upload_id })).err().unwrap(),
        "attachment_sha256_mismatch"
    );
    assert!(fs.children("/tmp/attachments/session-1").is_empty());

    let invalid_image = b"not-an-image";
    let (mut uploads, id) = fs.begin(uploads.begin_in_root(attach_request(invalid_image), "/tmp/attachments".into(), AttachmentKind::LegacyImage));
    let upload_id = id.unwrap();
    fs.append(&mut uploads, &upload_id, 0, invalid_image).unwrap();
    assert_eq!(
        fs.finish(uploads.finish(&FileAttachFinishRequest { upload_id })).err().unwrap(),
        "attachment_image_invalid"
    );
    assert!(fs.children("/tmp/attachments/session-1").is_empty());
}

#[test]
fn arbitrary_file_upload_preserves_name_without_image_validation() {
    let mut fs = FakeFs::new();
    let bytes = b"not-an-image";
    let mut request = attach_request(bytes);
    request.file_name = "配置文件".into();
    let (mut uploads, id) = fs.begin(FileAttachmentUploads::new().begin_in_root(request, "/tmp/attachments".into(), AttachmentKind::AnyFile));
    let upload_id = id.unwrap();
    fs.append(&mut uploads, &upload_id, 0, bytes).unwrap();
    let (path, _) = fs.finish(uploads.finish(&FileAttachFinishRequest { upload_id })).unwrap();
    assert_eq!(name_of(&path), "配置文件");
    assert_eq!(fs.bytes(&path).unwrap(), bytes);
}

#[test]
fn arbitrary_file_upload_accepts_20_mib_and_rejects_larger_declarations() {
    let mut fs = FakeFs::new();
    let mut request = attach_request(b"x");
    request.file_name = "archive.bin".into();
    request.size_bytes = MAX_ATTACHMENT_BYTES;
    let (mut uploads, id) = fs.begin(FileAttachmentUploads::new().begin_in_root(
        clone_request(&request),
        "/tmp/attachments".into(),
        AttachmentKind::AnyFile,
    ));
    let upload_id = id.unwrap();
    assert!(uploads.abort(&FileAttachAbortRequest { upload_id }).is_some());
    request.size_bytes += 1;
    let (_, err) = fs.begin(uploads.begin_in_root(request, "/tmp/attachments".into(), AttachmentKind::AnyFile));
    assert_eq!(err.err().unwrap(), "attachment_too_large");
}

fn clone_request(r: &FileAttachBeginRequest) -> FileAttachBeginRequest {
    FileAttachBeginRequest {
        session_id: r.session_id.clone(),
        file_name: r.file_name.clone(),
        size_bytes: r.size_bytes,
        sha256: r.sha256.clone(),
    }
}

#[test]
fn attachment_upload_enforces_offsets_and_abort_removes_partial_file() {
    let mut fs = FakeFs::new();
    let bytes = png_bytes();
    let (mut uploads, id) = fs.begin(FileAttachmentUploads::new().begin_in_root(attach_request(&bytes), "/tmp/attachments".into(), AttachmentKind::LegacyImage));
    let upload_id = id.unwrap();
    assert_eq!(
        fs.append(&mut uploads, &upload_id, 1, &bytes).err().unwrap(),
        "attachment_chunk_offset_invalid"
    );
    let left = uploads.abort(&FileAttachAbortRequest { upload_id }).unwrap();
    fs.handle(FsRequest::RemoveFile(left.temporary_path));
    assert!(fs.children("/tmp/attachments/session-1").is_empty());
}

#[test]
fn attachment_upload_rejects_a_symlinked_session_cache() {
    let mut fs = FakeFs::new();
    fs.mkdir("/tmp");
    fs.mkdir("/tmp/attachments");
    fs.mkdir("/outside");
    fs.link("/tmp/attachments/session-1", "/outside");
    let bytes = png_bytes();
    let (_, err) = fs.begin(FileAttachmentUploads::new().begin_in_root(attach_request(&bytes), "/tmp/attachments".into(), AttachmentKind::LegacyImage));
    assert_eq!(err.err().unwrap(), "attachment_cache_invalid");
    assert!(fs.children("/outside").is_empty());
}

#[test]
fn sixteen_uploads_fill_the_table() {
    let mut fs = FakeFs::new();
    let mut uploads = FileAttachmentUploads::new();
    for _ in 0..16 {
        let (u, id) = fs.begin(uploads.begin_in_root(attach_request(b"x"), "/tmp/attachments".into(), AttachmentKind::AnyFile));
        uploads = u;
        assert!(id.is_ok());
    }
    assert_eq!(uploads.len(), 16);
    let (_, err) = fs.begin(uploads.begin_in_root(attach_request(b"x"), "/tmp/attachments".into(), AttachmentKind::AnyFile));
    assert_eq!(err.err().unwrap(), "attachment_upload_limit_reached");
}


#[test]
fn cache_sweep_removes_expired_files_and_empty_directories_only() {
    let mut fs = FakeFs::new();
    fs.mkdir("/cache");
    fs.mkdir("/cache/s1");
    fs.mkdir("/cache/s1/u1");
    fs.mkdir("/cache/s2");
    fs.write("/cache/s1/old.png", b"old");
    fs.write("/cache/s1/u1/old.bin", b"old");
    fs.write("/cache/s2/new.png", b"new");
    fs.link("/cache/s2/link", "/cache/s1/old.png");
    fs.write("/cache/loose.bin", b"loose");
    let retention = 48 * 60 * 60 * 1000;
    fs.now = 1_000 + retention + 1;
    fs.nodes.get_mut("/cache/s2/new.png").unwrap().1 = fs.now - 10;
    fs.nodes.get_mut("/cache/loose.bin").unwrap().1 = 0;
    let reply = fs.handle(FsRequest::SweepCache("/cache".into()));
    assert!(matches!(reply, FsReply::Done(true)));
    assert!(!fs.has_node("/cache/s1/old.png"));
    assert!(!fs.has_node("/cache/s1/u1/old.bin"));
    assert!(!fs.has_node("/cache/s1/u1"));
    assert!(!fs.has_node("/cache/s1"));
    assert!(fs.has_node("/cache/s2/new.png"));
    assert!(fs.has_node("/cache/s2"));
    assert!(fs.nodes.contains_key("/cache/s2/link"));
    assert!(fs.has_node("/cache/loose.bin"));
}
