use ssh_agent::files::{base64_encode, validate_image_pixel_count};
use ssh_agent::ssh_files::{
    can_fallback_to_legacy_image, is_legacy_image_name, validate_remote_attachment_path,
};
use ssh_agent::files::validate_attachment_name;
use ssh_agent::tunnels::validate_forward_id;

#[test]
fn base64_encoding_is_standard() {
    assert_eq!(base64_encode(b"hello"), "aGVsbG8=");
}

#[test]
fn image_pixel_limit_allows_boundary_and_rejects_excess() {
    assert!(validate_image_pixel_count(4_000, 3_000).is_ok());
    assert_eq!(
        validate_image_pixel_count(4_000, 3_001).unwrap_err(),
        "image_dimensions_too_large"
    );
}

#[test]
fn attachment_names_accept_safe_regular_file_names() {
    assert!(validate_attachment_name("shot.PNG").is_ok());
    assert!(validate_attachment_name("notes.txt").is_ok());
    assert!(validate_attachment_name(".env").is_ok());
    assert!(validate_attachment_name("LICENSE").is_ok());
    assert!(is_legacy_image_name("shot.webp"));
    assert!(!is_legacy_image_name("notes.txt"));
    assert!(!can_fallback_to_legacy_image("shot.png", b"not-an-image"));
    assert!(validate_attachment_name("../shot.png").is_err());
    assert!(validate_attachment_name("folder\\shot.png").is_err());
    assert!(validate_attachment_name("../shot.png\n").is_err());
}

#[test]
fn remote_attachment_paths_are_absolute_and_cache_scoped() {
    assert!(validate_remote_attachment_path(
        "/home/dev/.cache/cli-manager-ssh-agent/attachments/session/id.png"
    )
    .is_ok());
    assert!(validate_remote_attachment_path(
        "/srv/xdg-cache/cli-manager-ssh-agent/attachments/session/id.png"
    )
    .is_ok());
    assert!(validate_remote_attachment_path("/project/.cli-manager/attachments/id.png").is_err());
    assert!(validate_remote_attachment_path(
        "/home/dev/.cache/cli-manager-ssh-agent/attachments/../secret.png"
    )
    .is_err());
}

#[test]
fn forward_ids_reject_path_and_control_characters() {
    assert!(validate_forward_id("fwd-1").is_ok());
    assert!(validate_forward_id("../fwd").is_err());
    assert!(validate_forward_id("fwd\nid").is_err());
    assert!(validate_forward_id("").is_err());
}
