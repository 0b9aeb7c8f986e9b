use ssh_agent::cache_sweep::{attachment_path_expired, ATTACHMENT_RETENTION_NS};
use ssh_agent::encoding::decode_standard;
use ssh_agent::files::{
    base64_encode, normalize_sha256, validate_attachment_session_id, MAX_ATTACHMENT_BYTES,
};
use ssh_agent::fsproto::{FileMeta, FsReply, FsRequest, MetaReply};
use ssh_agent::ssh_files::{
    can_fallback_to_legacy_image, decode_attachment, decode_write_bytes, read_attachment, read_managed_file_bytes,
    route_text_write, split_relative_file, upload_attachment, validate_plan,
    write_managed_file_bytes, AgentCall, AgentFields, AgentPayload, AttachmentProtocol,
    AttachmentSource, LocalReadStep, ManagedReadStep, ManagedWriteStep, SshLaunchPlan,
    TextWriteRoute, UploadStep,
};
use ssh_agent::tunnels::{stderr_summary, SshTunnelManager, SshTunnelStatus, TunnelProbe};
use ssh_agent::upload_begin::attachment_cache_root;

const CHUNK: usize = 512 * 1024;
const UUID: &str = "67e55044-10b1-426f-9247-bb680e5fe0c8";

fn plan() -> SshLaunchPlan {
    SshLaunchPlan {
        host_id: "host".into(),
        agent_path: "/usr/bin/agent".into(),
        agent_installation_id: "install".into(),
        agent_remote_machine_id: "machine".into(),
        client_instance_id: "client".into(),
    }
}

fn fields() -> AgentFields {
    AgentFields {
        upload_id: None,
        received_bytes: None,
        size_bytes: None,
        path: None,
        name: None,
        data_base64: None,
        eof: None,
    }
}

fn png_bytes() -> Vec<u8> {
    let img = image::RgbaImage::new(2, 2);
    let mut out = std::io::Cursor::new(Vec::new());
    img.write_to(&mut out, image::ImageFormat::Png).unwrap();
    out.into_inner()
}

/// An agent that accepts uploads of either protocol and records the calls.
struct UploadAgent {
    any_supported: bool,
    calls: Vec<String>,
    received: Vec<u8>,
    begin_sha256: String,
    bad_chunk_reply: bool,
    id: String,
}

impl UploadAgent {
    fn answer(&mut self, call: AgentCall) -> Result<AgentFields, String> {
        self.calls.push(call.kind.clone());
        match call.payload {
            AgentPayload::AttachBegin { sha256, .. } => {
                self.begin_sha256 = sha256;
                if call.kind == "fileAttachAnyBegin" && !self.any_supported {
                    return Err("ssh_agent_capability_missing:fileAttachAny".into());
                }
                Ok(AgentFields { upload_id: Some(self.id.clone()), ..fields() })
            }
            AgentPayload::AttachChunk { offset, data_base64, .. } => {
                assert_eq!(offset as usize, self.received.len());
                let data = decode_standard(&data_base64).unwrap();
                assert!(data.len() <= CHUNK);
                self.received.extend_from_slice(&data);
                let n = if self.bad_chunk_reply { 0 } else { self.received.len() as u64 };
                Ok(AgentFields { received_bytes: Some(n), ..fields() })
            }
            AgentPayload::AttachUpload { .. } => {
                if call.kind.ends_with("Abort") {
                    return Ok(fields());
                }
                Ok(AgentFields {
                    size_bytes: Some(self.received.len() as u64),
                    path: Some("/home/dev/.cache/cli-manager-ssh-agent/attachments/s/file.bin".into()),
                    ..fields()
                })
            }
            _ => Err("unexpected".into()),
        }
    }

    fn run(&mut self, mut step: UploadStep) -> Result<String, String> {
        loop {
            match step {
                UploadStep::Ask(m, call) => {
                    let reply = self.answer(call);
                    step = m.resume(reply);
                }
                UploadStep::Finished(r) => return r,
            }
        }
    }
}

fn agent() -> UploadAgent {
    UploadAgent { any_supported: true, calls: Vec::new(), received: Vec::new(), begin_sha256: String::new(), bad_chunk_reply: false, id: UUID.into() }
}

#[test]
fn upload_sends_the_data_in_512kib_chunks_then_finishes() {
    let data: Vec<u8> = (0..(CHUNK * 2 + 1000)).map(|i| (i % 251) as u8).collect();
    let mut a = agent();
    let path = a.run(upload_attachment(&plan(), "s".into(), "file.bin".into(), data.clone())).unwrap();
    assert_eq!(path, "/home/dev/.cache/cli-manager-ssh-agent/attachments/s/file.bin");
    assert_eq!(a.received, data);
    assert_eq!(
        a.calls,
        vec!["fileAttachAnyBegin", "fileAttachAnyChunk", "fileAttachAnyChunk", "fileAttachAnyChunk", "fileAttachAnyFinish"]
    );
}

#[test]
fn upload_declares_the_sha256_of_the_data() {
    let mut a = agent();
    a.run(upload_attachment(&plan(), "s".into(), "abc.txt".into(), b"abc".to_vec())).unwrap();
    assert_eq!(a.begin_sha256, "ba7816bf8f01cfea414140de5dae2223b00361a396177a9cb410ff61f20015ad");
}

#[test]
fn upload_falls_back_to_the_legacy_protocol_for_small_images() {
    let mut a = agent();
    a.any_supported = false;
    let data = png_bytes();
    a.run(upload_attachment(&plan(), "s".into(), "shot.png".into(), data)).unwrap();
    assert_eq!(a.calls, vec!["fileAttachAnyBegin", "fileAttachBegin", "fileAttachChunk", "fileAttachFinish"]);

    let mut b = agent();
    b.any_supported = false;
    let err = b.run(upload_attachment(&plan(), "s".into(), "notes.txt".into(), b"text".to_vec())).unwrap_err();
    assert_eq!(err, "ssh_agent_capability_missing:fileAttachAny");
}

#[test]
fn upload_aborts_when_a_chunk_is_not_acknowledged() {
    let mut a = agent();
    a.bad_chunk_reply = true;
    let err = a.run(upload_attachment(&plan(), "s".into(), "file.bin".into(), vec![1, 2, 3])).unwrap_err();
    assert_eq!(err, "attachment_chunk_response_invalid");
    assert_eq!(a.calls.last().unwrap(), "fileAttachAnyAbort");
}

#[test]
fn upload_refuses_an_id_that_is_no_uuid_and_bad_inputs() {
    let mut a = agent();
    a.id = "not-a-uuid".into();
    let err = a.run(upload_attachment(&plan(), "s".into(), "file.bin".into(), vec![1])).unwrap_err();
    assert_eq!(err, "attachment_begin_response_invalid");
    let mut bad = plan();
    bad.host_id = "  ".into();
    assert_eq!(agent().run(upload_attachment(&bad, "s".into(), "f".into(), vec![1])).unwrap_err(), "remote_file_plan_invalid");
    assert_eq!(agent().run(upload_attachment(&plan(), "s".into(), "a/b".into(), vec![1])).unwrap_err(), "attachment_name_invalid");
    assert_eq!(agent().run(upload_attachment(&plan(), "s".into(), "f".into(), Vec::new())).unwrap_err(), "attachment_empty");
}

#[test]
fn upload_accepts_every_uuid_spelling_the_crate_reads() {
    for id in [
        "67e5504410b1426f9247bb680e5fe0c8",
        "67E55044-10B1-426F-9247-BB680E5FE0C8",
        "{67e55044-10b1-426f-9247-bb680e5fe0c8}",
        "URN:uuid:67e55044-10b1-426f-9247-bb680e5fe0c8",
    ] {
        let mut a = agent();
        a.id = id.into();
        assert!(a.run(upload_attachment(&plan(), "s".into(), "file.bin".into(), vec![1])).is_ok(), "{id}");
    }
    for id in [
        "67e55044-10b1-426f-9247-bb680e5fe0c",
        "67e55044_10b1-426f-9247-bb680e5fe0c8",
        "(67e55044-10b1-426f-9247-bb680e5fe0c8)",
        "urn:uuix:67e55044-10b1-426f-9247-bb680e5fe0c8",
        "67e55044-10b1-426f-9247-bb680e5fe0cg",
    ] {
        let mut a = agent();
        a.id = id.into();
        assert_eq!(
            a.run(upload_attachment(&plan(), "s".into(), "file.bin".into(), vec![1])).unwrap_err(),
            "attachment_begin_response_invalid",
            "{id}"
        );
    }
}

#[test]
fn protocol_kinds_name_the_operation() {
    assert_eq!(AttachmentProtocol::AnyFile.kind("Begin"), "fileAttachAnyBegin");
    assert_eq!(AttachmentProtocol::LegacyImage.kind("Chunk"), "fileAttachChunk");
}

#[test]
fn plans_need_every_identifier() {
    assert!(validate_plan(&plan()).is_ok());
    let mut p = plan();
    p.client_instance_id = "\t".into();
    assert_eq!(validate_plan(&p).unwrap_err(), "remote_file_plan_invalid");
}

#[test]
fn managed_read_collects_the_chunks() {
    let content: Vec<u8> = (0..(CHUNK + 10)).map(|i| (i % 7) as u8).collect();
    let mut step = read_managed_file_bytes(&plan(), "/root".into(), "a/b.bin".into());
    let mut calls = 0;
    let result = loop {
        match step {
            ManagedReadStep::Ask(m, call) => {
                calls += 1;
                let (offset, length) = match call.payload {
                    AgentPayload::ReadBytes { offset, length, .. } => (offset as usize, length as usize),
                    _ => panic!("unexpected call"),
                };
                let end = (offset + length).min(content.len());
                let reply = AgentFields {
                    name: Some("b.bin".into()),
                    size_bytes: Some(content.len() as u64),
                    data_base64: Some(base64_encode(&content[offset..end])),
                    eof: Some(end == content.len()),
                    ..fields()
                };
                step = m.resume(Ok(reply));
            }
            ManagedReadStep::Finished(r) => break r.unwrap(),
        }
    };
    assert_eq!(calls, 2);
    assert_eq!(result.name, "b.bin");
    assert_eq!(result.relative_path, "a/b.bin");
    assert_eq!(result.size_bytes, content.len() as u64);
    assert_eq!(decode_standard(&result.data_base64).unwrap(), content);
}

#[test]
fn managed_read_refuses_files_over_20_mib() {
    match read_managed_file_bytes(&plan(), "/root".into(), "big".into()) {
        ManagedReadStep::Ask(m, _) => {
            let reply = AgentFields { size_bytes: Some(20 * 1024 * 1024 + 1), data_base64: Some(String::new()), ..fields() };
            match m.resume(Ok(reply)) {
                ManagedReadStep::Finished(r) => assert_eq!(r.err().unwrap(), "remote_file_too_large"),
                _ => panic!("expected the end"),
            }
        }
        _ => panic!("expected a request"),
    }
}

#[test]
fn managed_write_sends_chunks_and_a_single_call_for_empty_data() {
    let data: Vec<u8> = (0..(CHUNK + 3)).map(|i| (i % 5) as u8).collect();
    let mut step = write_managed_file_bytes("/root".into(), "dir".into(), "f".into(), data.clone(), true);
    let mut written: Vec<u8> = Vec::new();
    let mut offsets = Vec::new();
    loop {
        match step {
            ManagedWriteStep::Ask(m, call) => {
                match call.payload {
                    AgentPayload::WriteBytes { offset, data_base64, overwrite, .. } => {
                        assert!(overwrite);
                        offsets.push(offset);
                        written.extend_from_slice(&decode_standard(&data_base64).unwrap());
                    }
                    _ => panic!("unexpected call"),
                }
                step = m.resume(Ok(fields()));
            }
            ManagedWriteStep::Finished(r) => {
                r.unwrap();
                break;
            }
        }
    }
    assert_eq!(written, data);
    assert_eq!(offsets, vec![0, CHUNK as u64]);

    match write_managed_file_bytes("/root".into(), "dir".into(), "f".into(), Vec::new(), false) {
        ManagedWriteStep::Ask(m, call) => {
            match call.payload {
                AgentPayload::WriteBytes { offset, data_base64, .. } => {
                    assert_eq!(offset, 0);
                    assert_eq!(data_base64, "");
                }
                _ => panic!("unexpected call"),
            }
            assert!(matches!(m.resume(Ok(fields())), ManagedWriteStep::Finished(Ok(()))));
        }
        _ => panic!("expected a request"),
    }
    assert!(matches!(
        write_managed_file_bytes("/root".into(), "d".into(), "f".into(), vec![0; 20 * 1024 * 1024 + 1], false),
        ManagedWriteStep::Finished(Err(_))
    ));
}

#[test]
fn text_writes_route_by_size() {
    assert!(matches!(route_text_write(&plan(), "a/b.txt", "short"), Ok(TextWriteRoute::Direct)));
    let long = "x".repeat(CHUNK + 1);
    match route_text_write(&plan(), "/dir/sub/b.txt", &long).unwrap() {
        TextWriteRoute::Chunked { parent_path, name } => {
            assert_eq!(parent_path, "dir/sub");
            assert_eq!(name, "b.txt");
        }
        TextWriteRoute::Direct => panic!("expected chunks"),
    }
    assert_eq!(route_text_write(&plan(), "  ", &long).err().unwrap(), "remote_file_path_invalid");
    assert_eq!(split_relative_file("name").unwrap(), (String::new(), "name".to_string()));
}

#[test]
fn write_bytes_payloads_are_decoded_and_bounded() {
    assert_eq!(decode_write_bytes(&plan(), "").unwrap(), Vec::<u8>::new());
    assert_eq!(decode_write_bytes(&plan(), "aGk=").unwrap(), b"hi".to_vec());
    assert_eq!(decode_write_bytes(&plan(), "a").unwrap_err(), "remote_file_bytes_invalid");
}

#[test]
fn attachment_data_is_decoded_and_checked() {
    let (name, data) = decode_attachment("pixel.png".into(), base64_encode(b"abc")).unwrap();
    assert_eq!(name, "pixel.png");
    assert_eq!(data, b"abc");
    assert_eq!(decode_attachment("pixel.png".into(), String::new()).unwrap_err(), "attachment_data_invalid");
    assert_eq!(decode_attachment("pixel.png".into(), "!!!!".into()).unwrap_err(), "attachment_data_invalid");
    assert_eq!(decode_attachment("..".into(), "YQ==".into()).unwrap_err(), "attachment_name_invalid");
    match (AttachmentSource::Data { file_name: "a.txt".into(), data_base64: "YQ==".into() }).read() {
        LocalReadStep::Finished(Ok((n, d))) => {
            assert_eq!(n, "a.txt");
            assert_eq!(d, b"a");
        }
        _ => panic!("expected the bytes"),
    }
}

fn meta(len: u64, is_file: bool, is_symlink: bool) -> FsReply {
    FsReply::Meta(MetaReply::Found(FileMeta { is_symlink, is_dir: !is_file && !is_symlink, is_file, len, modified_ms: None, modified_ns: None }))
}

#[test]
fn local_attachments_are_bounded_regular_files() {
    let mut step = read_attachment("/home/dev/pixel.png".into());
    let mut asked = Vec::new();
    let result = loop {
        match step {
            LocalReadStep::Ask(m, q) => {
                let reply = match q {
                    FsRequest::SymlinkMetadata(p) => {
                        asked.push(p);
                        meta(5, true, false)
                    }
                    FsRequest::Canonicalize(p) => FsReply::Path(Some(p)),
                    FsRequest::ReadPrefix(p, n) => {
                        assert_eq!(n, 20 * 1024 * 1024 + 1);
                        asked.push(p);
                        FsReply::Bytes(Some(b"hello".to_vec()))
                    }
                    _ => panic!("unexpected request"),
                };
                step = m.resume(reply);
            }
            LocalReadStep::Finished(r) => break r,
        }
    };
    assert_eq!(result.unwrap(), ("pixel.png".to_string(), b"hello".to_vec()));
    assert_eq!(asked.len(), 2);

    match read_attachment("/big.bin".into()) {
        LocalReadStep::Ask(m, _) => match m.resume(meta(20 * 1024 * 1024 + 1, true, false)) {
            LocalReadStep::Finished(r) => assert_eq!(r.unwrap_err(), "attachment_too_large"),
            _ => panic!("expected the end"),
        },
        _ => panic!("expected a request"),
    }
    match read_attachment("/link".into()) {
        LocalReadStep::Ask(m, _) => match m.resume(meta(3, false, true)) {
            LocalReadStep::Finished(r) => assert_eq!(r.unwrap_err(), "attachment_local_path_invalid"),
            _ => panic!("expected the end"),
        },
        _ => panic!("expected a request"),
    }
    assert!(matches!(read_attachment("relative.txt".into()), LocalReadStep::Finished(Err(_))));
}

/// Runs a local read against files held in memory: each path has a length
/// and, where it can be read, its bytes.
fn read_local(path: &str, files: &[(&str, u64, Option<Vec<u8>>)]) -> Result<(String, Vec<u8>), String> {
    let find = |p: &str| files.iter().find(|f| f.0 == p);
    let mut step = read_attachment(path.into());
    loop {
        match step {
            LocalReadStep::Ask(m, q) => {
                let reply = match q {
                    FsRequest::SymlinkMetadata(p) => match find(&p) {
                        Some(f) => meta(f.1, true, false),
                        None => FsReply::Meta(MetaReply::Missing),
                    },
                    FsRequest::Canonicalize(p) => FsReply::Path(find(&p).map(|f| f.0.to_string())),
                    FsRequest::ReadPrefix(p, n) => FsReply::Bytes(
                        find(&p).and_then(|f| f.2.clone()).map(|b| b[..b.len().min(n as usize)].to_vec()),
                    ),
                    _ => panic!("unexpected request"),
                };
                step = m.resume(reply);
            }
            LocalReadStep::Finished(r) => return r,
        }
    }
}

#[test]
fn attachment_data_and_local_paths_are_bounded_files() {
    let bytes = {
        let img = image::RgbaImage::new(1, 1);
        let mut out = std::io::Cursor::new(Vec::new());
        img.write_to(&mut out, image::ImageFormat::Png).unwrap();
        out.into_inner()
    };
    assert!(can_fallback_to_legacy_image("pixel.png", &bytes));
    let (_, decoded) = decode_attachment("pixel.png".into(), base64_encode(&bytes)).unwrap();
    assert_eq!(decoded, bytes);
    let files = [
        ("/tmp/root/pixel.png", bytes.len() as u64, Some(bytes.clone())),
        ("/tmp/root/notes.txt", 5, Some(b"hello".to_vec())),
        ("/tmp/root/oversized.bin", MAX_ATTACHMENT_BYTES + 1, None),
    ];
    let (name, loaded) = read_local("/tmp/root/pixel.png", &files).unwrap();
    assert_eq!(name, "pixel.png");
    assert_eq!(loaded, bytes);

    let (name, loaded) = read_local("/tmp/root/notes.txt", &files).unwrap();
    assert_eq!(name, "notes.txt");
    assert_eq!(loaded, b"hello");

    assert_eq!(read_local("/tmp/root/oversized.bin", &files).unwrap_err(), "attachment_too_large");
}

#[test]
fn tunnels_are_tracked_by_forward() {
    let mut t = SshTunnelManager::new();
    assert_eq!(t.start("host-a", "fwd-1", false).unwrap(), None);
    let running = t.started("host-a", "fwd-1", TunnelProbe::Running).unwrap();
    assert_eq!(running.state, "running");
    let at = running.started_at_ms;
    assert!(at.is_some());
    let again = t.start("host-a", "fwd-1", true).unwrap().unwrap();
    assert_eq!(again.started_at_ms, at);
    assert_eq!(t.status("fwd-1", TunnelProbe::Running).unwrap().state, "running");
    let exited = t
        .status("fwd-1", TunnelProbe::Exited { summary: String::new(), status_text: "exit status: 1".into() })
        .unwrap();
    assert_eq!(
        exited,
        SshTunnelStatus {
            forward_id: "fwd-1".into(),
            state: "error".into(),
            error: Some("ssh_tunnel_exited: exit status: 1".into()),
            started_at_ms: None,
        }
    );
    assert_eq!(t.status("fwd-1", TunnelProbe::Running).unwrap().state, "stopped");
    assert_eq!(t.start("host/a", "fwd-2", false).unwrap_err(), "ssh_forward_id_invalid");
    let failed = t
        .started("host-a", "fwd-2", TunnelProbe::Exited { summary: "bad key".into(), status_text: "x".into() })
        .unwrap_err();
    assert_eq!(failed, "bad key");
    let failed = t.started("host-a", "fwd-2", TunnelProbe::Failed { message: "io".into() }).unwrap_err();
    assert_eq!(failed, "ssh_tunnel_start_failed: io");
}

#[test]
fn stopping_by_host_leaves_other_hosts_running() {
    let mut t = SshTunnelManager::new();
    t.started("h1", "a", TunnelProbe::Running).unwrap();
    t.started("h2", "b", TunnelProbe::Running).unwrap();
    t.started("h1", "c", TunnelProbe::Running).unwrap();
    assert!(t.stop_for_host("").is_empty());
    let mut gone = t.stop_for_host("h1");
    gone.sort();
    assert_eq!(gone, vec!["a".to_string(), "c".to_string()]);
    assert_eq!(t.status("a", TunnelProbe::Running).unwrap().state, "stopped");
    assert_eq!(t.status("b", TunnelProbe::Running).unwrap().state, "running");
    let stopped = t.stop("b").unwrap();
    assert_eq!(stopped.state, "stopped");
    assert_eq!(t.status("b", TunnelProbe::Running).unwrap().state, "stopped");
    assert_eq!(t.stop("").unwrap_err(), "ssh_forward_id_invalid");
    t.started("h3", "d", TunnelProbe::Running).unwrap();
    assert_eq!(t.stop_all(), vec!["d".to_string()]);
    let listed = t
        .list(&vec!["d".to_string(), "e".to_string()], vec![TunnelProbe::Running, TunnelProbe::Running])
        .unwrap();
    assert_eq!(listed.len(), 2);
    assert!(listed.iter().all(|s| s.state == "stopped"));
    assert!(t.list(&vec!["ok".to_string(), "bad\n".to_string()], vec![TunnelProbe::Running, TunnelProbe::Running]).is_err());
}

#[test]
fn stderr_is_summarised_to_its_first_line() {
    assert_eq!(stderr_summary(b"first line\r\nsecond"), "first line");
    assert_eq!(stderr_summary(b""), "");
    assert_eq!(stderr_summary(&[0xff, b'a', b'\n']), "\u{fffd}a");
    assert_eq!(stderr_summary(&vec![b'x'; 500]).len(), 400);
}

#[test]
fn attachment_cache_root_prefers_xdg_cache_home() {
    assert_eq!(
        attachment_cache_root(Some("/xdg".into()), "/home/dev".into()).unwrap(),
        "/xdg/cli-manager-ssh-agent/attachments"
    );
    assert_eq!(
        attachment_cache_root(Some(String::new()), "/home/dev".into()).unwrap(),
        "/home/dev/.cache/cli-manager-ssh-agent/attachments"
    );
    assert_eq!(attachment_cache_root(None, "home".into()).unwrap_err(), "attachment_cache_root_invalid");
}

#[test]
fn attachments_expire_after_48_hours() {
    let at = |ns: i128| MetaReply::Found(FileMeta {
        is_symlink: false,
        is_dir: false,
        is_file: true,
        len: 1,
        modified_ms: Some((ns / 1_000_000) as i64),
        modified_ns: Some(ns),
    });
    assert!(attachment_path_expired(at(0), ATTACHMENT_RETENTION_NS));
    assert!(!attachment_path_expired(at(1), ATTACHMENT_RETENTION_NS));
    // Less than a millisecond short of the retention period is not yet expired.
    assert!(!attachment_path_expired(at(999_999), ATTACHMENT_RETENTION_NS + 500_000));
    assert!(attachment_path_expired(at(500_000), ATTACHMENT_RETENTION_NS + 500_000));
    assert!(!attachment_path_expired(at(10), 5));
    assert!(attachment_path_expired(at(-ATTACHMENT_RETENTION_NS), 0));
    assert!(!attachment_path_expired(at(0), i128::MIN));
    assert!(!attachment_path_expired(MetaReply::Missing, i128::MAX));
}

#[test]
fn session_ids_and_digests_are_checked() {
    assert!(validate_attachment_session_id("session-1_A").is_ok());
    assert!(validate_attachment_session_id("").is_err());
    assert!(validate_attachment_session_id(&"a".repeat(129)).is_err());
    assert!(validate_attachment_session_id("a b").is_err());
    let upper = format!("  {}  ", "AB".repeat(32));
    assert_eq!(normalize_sha256(&upper).unwrap(), "ab".repeat(32));
    assert_eq!(normalize_sha256("abc").unwrap_err(), "attachment_sha256_invalid");
}

#[test]
fn base64_round_trips() {
    for n in 0..10 {
        let data: Vec<u8> = (0..n).map(|i| (i * 37 + 11) as u8).collect();
        let text = base64_encode(&data);
        assert_eq!(text.len(), (n + 2) / 3 * 4);
        assert_eq!(decode_standard(&text).unwrap(), data);
    }
    assert!(decode_standard("YR==").is_none());
}
