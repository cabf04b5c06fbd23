use gmacftp::ip_address::{parse_ipv4, parse_ipv6};
use gmacftp::net::partial::{
    after_create, after_open_existing, check_fragment, discards_fragment, unique_part_path,
    CreateOutcome, FileFacts, PartStep,
};
use gmacftp::net::proxy::{
    authority, connect_request, header_progress, http_connect, parse_proxy_url, plan_tunnel,
    socks5_greeting, socks5_method, socks5_reply, socks5_request, validate_target, BoundAddress,
    HeaderProgress, ProxyKind,
};
use gmacftp::net::safe::{
    before_within, canonicalize_lenient, same_path, starts_with_path, validate_remote_component,
    ClimbStep, PathPart, PathParts, WithinCheck,
};
use gmacftp::net::transfer_rules::{
    download_file_limited, exceeds_limit, local_transfer_metadata, metadata_to_apply,
    modified_unix_nanos, remote_exists, validate_upload_source,
};
use gmacftp::net::{
    assert_within, resumable_part_path, DownloadResume, HostKeyChallenge, IoFailure, IoKind,
    MetadataPreservation, NetError, TransferMetadata, UploadResume,
};

fn path(parts: &[&str]) -> PathParts {
    PathParts {
        absolute: true,
        parts: parts
            .iter()
            .map(|part| match *part {
                ".." => PathPart::Parent,
                "." => PathPart::Current,
                name => PathPart::Normal(name.as_bytes().to_vec()),
            })
            .collect(),
    }
}

/// Resolve a path, where only the first `existing` parts of it exist and none is a link.
fn resolve(target: &PathParts, existing: usize) -> Option<PathParts> {
    let mut dropped = 0;
    loop {
        let kept = target.parts.len() - dropped;
        let resolved = if kept <= existing {
            let mut real = target.duplicate();
            real.parts.truncate(kept);
            Some(real)
        } else {
            None
        };
        match canonicalize_lenient(target, dropped, resolved) {
            ClimbStep::Resolved(real) => return Some(real),
            ClimbStep::Resolve { dropped: more } => dropped = more,
            ClimbStep::Unresolved => return None,
        }
    }
}

/// Whether a target is within a root, where only the directory `/tmp` and what `existing` says of
/// the target's parent exist.
fn within(root: &PathParts, target: &PathParts, existing: usize) -> Result<(), NetError> {
    match before_within(root, target)? {
        WithinCheck::Accepted => Ok(()),
        WithinCheck::ResolveParent { parts } => {
            let mut parent = target.duplicate();
            parent.parts.truncate(parts);
            let root = resolve(root, 1).unwrap();
            let parent = resolve(&parent, existing).unwrap();
            assert_within(&root, &parent)
        }
    }
}

#[test]
fn assert_within_accepts_not_yet_existing_root() {
    let root = path(&["tmp", "newfolder"]);
    let target = path(&["tmp", "newfolder", "report.pdf"]);
    within(&root, &target, 1).expect("a not-yet-created destination root must be tolerated");
}

#[test]
fn assert_within_still_rejects_escape_when_root_missing() {
    let root = path(&["tmp", "newfolder"]);
    let target = path(&["tmp", "elsewhere", "evil.txt"]);
    assert!(
        within(&root, &target, 2).is_err(),
        "an out-of-root target must still be refused"
    );
}

#[test]
fn assert_within_accepts_existing_root_and_target_parent() {
    let root = path(&["tmp"]);
    let target = path(&["tmp", "file.txt"]);
    within(&root, &target, 1).unwrap();
}

#[test]
fn assert_within_rejects_dotdot_in_target_even_when_root_missing() {
    let root = path(&["tmp", "newfolder"]);
    let escape = path(&["tmp", "newfolder", "..", "evil.plist"]);
    assert!(
        within(&root, &escape, 1).is_err(),
        "a `..`-bearing target that resolves outside root must be refused"
    );
}

#[test]
fn assert_within_rejects_dotdot_in_root() {
    let root = path(&["tmp", "..", "newfolder"]);
    let target = path(&["tmp", "..", "newfolder", "file.txt"]);
    assert!(within(&root, &target, 1).is_err());
}

#[test]
fn paths_are_compared_part_by_part() {
    assert!(starts_with_path(&path(&["a", "b"]), &path(&["a"])));
    assert!(!starts_with_path(&path(&["ab"]), &path(&["a"])));
    assert!(same_path(&path(&["a", "."]), &path(&["a", "."])));
    assert!(!same_path(&path(&["a"]), &path(&["b"])));
    for name in ["", ".", "..", "a/b", "a\n"] {
        assert!(validate_remote_component(name).is_err());
    }
    assert!(validate_remote_component("plain.txt").is_ok());
}

fn facts() -> FileFacts {
    FileFacts {
        is_file: true,
        is_symlink: false,
        device: 1,
        inode: 2,
        links: 1,
        mode: 0o100600,
        owner: 501,
        len: 4,
    }
}

#[test]
fn resumable_fragment_reopens_at_existing_length() {
    let resume = DownloadResume { token: 42, expected_total: Some(10) };
    assert!(matches!(
        after_create(Some(resume), 0, CreateOutcome::AlreadyExists),
        PartStep::OpenExisting
    ));
    match after_open_existing(resume, 4) {
        PartStep::Ready { offset, keep_on_error } => {
            assert_eq!(offset, 4);
            assert!(keep_on_error);
        }
        other => panic!("{other:?}"),
    }
    let part = resumable_part_path(&path(&["tmp", "report.bin"]), 42);
    let again = resumable_part_path(&path(&["tmp", "report.bin"]), 42);
    assert!(same_path(&part, &again));
}

#[test]
fn resumable_fragment_rejects_symlinks_and_hardlinks() {
    let link = FileFacts { is_file: false, is_symlink: true, ..facts() };
    assert!(check_fragment(&link, None).is_err());
    let shared = FileFacts { links: 2, ..facts() };
    assert!(check_fragment(&shared, Some(&shared)).is_err());
    assert_eq!(check_fragment(&facts(), None), Ok(false));
    assert_eq!(check_fragment(&facts(), Some(&facts())), Ok(true));
    let other = FileFacts { inode: 9, ..facts() };
    assert!(check_fragment(&facts(), Some(&other)).is_err());
}

#[test]
fn parts_are_created_under_fresh_names() {
    let destination = path(&["tmp", "report.bin"]);
    let part = unique_part_path(&destination);
    assert!(!same_path(&part, &unique_part_path(&destination)));
    match part.parts.last() {
        Some(PathPart::Normal(name)) => assert!(name.starts_with(b".report.bin.gmacftp-")),
        other => panic!("{other:?}"),
    }
    assert!(matches!(
        after_create(None, 0, CreateOutcome::AlreadyExists),
        PartStep::Create { attempt: 1 }
    ));
    assert!(matches!(
        after_create(None, 15, CreateOutcome::AlreadyExists),
        PartStep::Fail(_)
    ));
    assert!(matches!(
        after_create(None, 3, CreateOutcome::Created),
        PartStep::Ready { offset: 0, keep_on_error: false }
    ));
    let too_long = DownloadResume { token: 1, expected_total: Some(3) };
    assert!(matches!(
        after_open_existing(too_long, 4),
        PartStep::Fail(failure) if failure.kind == IoKind::InvalidData
    ));
    assert!(!discards_fragment(0));
    assert!(discards_fragment(7));
}

#[test]
fn local_metadata_preserves_only_mtime_and_rwx_bits() {
    let modified = 1_700_000_123_i128 * 1_000_000_000;
    let applied = metadata_to_apply(
        TransferMetadata {
            modified: Some(modified),
            // Special bits are untrusted across endpoints and must be stripped.
            permissions: Some(0o7764),
        },
        Some(facts()),
    )
    .unwrap();
    assert_eq!(applied.permissions, Some(0o764));
    assert_eq!(applied.modified, Some(modified));
}

#[test]
fn local_metadata_rejects_an_unexpected_hard_link() {
    let error = metadata_to_apply(
        TransferMetadata { modified: None, permissions: Some(0o777) },
        Some(FileFacts { links: 2, ..facts() }),
    )
    .unwrap_err();
    assert_eq!(error.kind, IoKind::InvalidData);
}

#[test]
fn metadata_is_preserved_on_request_alone() {
    let nothing = MetadataPreservation { timestamps: false, permissions: false };
    assert_eq!(
        local_transfer_metadata(Some(5), 0o100644, nothing),
        TransferMetadata { modified: None, permissions: None }
    );
    let all = MetadataPreservation { timestamps: true, permissions: true };
    assert_eq!(
        local_transfer_metadata(Some(5), 0o104755, all),
        TransferMetadata { modified: Some(5), permissions: Some(0o755) }
    );
}

#[test]
fn upload_sources_must_not_change() {
    let resume = UploadResume { token: 1, expected_total: 8, expected_modified_unix_nanos: 5 };
    assert!(validate_upload_source(8, Some(5), resume).is_ok());
    assert_eq!(
        validate_upload_source(9, Some(5), resume),
        Err(NetError::UploadSourceChanged)
    );
    assert_eq!(
        validate_upload_source(8, Some(6), resume),
        Err(NetError::UploadSourceChanged)
    );
    assert_eq!(modified_unix_nanos(Some(-1)), None);
    assert_eq!(modified_unix_nanos(Some(7)), Some(7));
    assert_eq!(modified_unix_nanos(None), None);
}

#[test]
fn limited_downloads_say_what_stopped_them() {
    assert!(exceeds_limit(11, 10));
    assert!(!exceeds_limit(10, 10));
    assert_eq!(download_file_limited(false, Ok(10), 10), Ok(10));
    assert!(download_file_limited(true, Err(NetError::Cancelled), 10).is_err());
    assert_eq!(
        remote_exists(Err(NetError::Cancelled), "a"),
        Err(NetError::Cancelled)
    );
    assert_eq!(remote_exists(Ok(Vec::new()), "a"), Ok(false));
}

#[test]
fn http_connect_does_not_overread_tunneled_bytes() {
    let endpoint = plan_tunnel("http://127.0.0.1:8080", "files.example", 22).unwrap();
    assert_eq!(endpoint.kind, ProxyKind::HttpConnect);
    let request = connect_request("files.example", 22);
    assert!(request.starts_with("CONNECT files.example:22 HTTP/1.1\r\n"));
    assert!(request.ends_with("\r\n\r\n"));

    let wire = b"HTTP/1.1 200 OK\r\n\r\nSSH-";
    let mut header = Vec::new();
    while header_progress(&header) == HeaderProgress::NeedByte {
        header.push(wire[header.len()]);
    }
    assert_eq!(header_progress(&header), HeaderProgress::Complete);
    assert!(http_connect(&header).is_ok());
    assert_eq!(&wire[header.len()..], b"SSH-");
}

#[test]
fn socks5_uses_remote_dns_and_completes_the_bounded_reply() {
    let endpoint = plan_tunnel("socks5://127.0.0.1:1080", "private.example", 2222).unwrap();
    assert_eq!(endpoint.kind, ProxyKind::Socks5);
    assert_eq!(socks5_greeting(), vec![5, 1, 0]);
    assert!(socks5_method(5, 0).is_ok());
    let request = socks5_request("private.example", 2222).unwrap();
    assert_eq!(&request[..4], &[5, 1, 0, 3]);
    assert_eq!(usize::from(request[4]), "private.example".len());
    assert_eq!(&request[5..request.len() - 2], b"private.example");
    let port = [request[request.len() - 2], request[request.len() - 1]];
    assert_eq!(u16::from_be_bytes(port), 2222);
    let reply = [5, 0, 0, 1, 127, 0, 0, 1, 0x12, 0x34];
    assert_eq!(
        socks5_reply(reply[0], reply[1], reply[2], reply[3]).unwrap(),
        BoundAddress::Fixed(6)
    );
}

#[test]
fn proxies_refuse_with_their_own_words() {
    assert!(http_connect(b"HTTP/1.1 407 Authentication required\r\n\r\n").is_err());
    assert!(http_connect(b"SSH-2.0\r\n\r\n").is_err());
    assert!(http_connect(b"HTTP/1.1 200 \xff\r\n\r\n").is_err());
    assert!(socks5_method(5, 255).is_err());
    assert!(socks5_method(4, 0).is_err());
    assert!(socks5_reply(5, 5, 0, 1).is_err());
    assert_eq!(socks5_reply(5, 0, 0, 4).unwrap(), BoundAddress::Fixed(18));
    assert_eq!(socks5_reply(5, 0, 0, 3).unwrap(), BoundAddress::Named);
    assert!(socks5_reply(5, 0, 0, 9).is_err());
    assert_eq!(header_progress(&vec![b'x'; 16384]), HeaderProgress::TooLong);
    assert!(validate_target("files.example", 22).is_ok());
    assert!(validate_target("files.example", 0).is_err());
    assert!(validate_target("a b", 22).is_err());
    assert_eq!(authority("::1", 22), "[::1]:22");
    assert_eq!(authority("h", 22), "h:22");
    let endpoint = parse_proxy_url("socks5://[::1]:1080").unwrap();
    assert_eq!(endpoint.host, "::1");
    assert_eq!(endpoint.port, 1080);
}

#[test]
fn addresses_are_read_in_full() {
    let chars = |text: &str| text.chars().collect::<Vec<char>>();
    assert_eq!(parse_ipv4(&chars("203.0.113.9")), Some(vec![203, 0, 113, 9]));
    assert_eq!(parse_ipv4(&chars("203.0.113")), None);
    assert_eq!(parse_ipv4(&chars("203.0.113.256")), None);
    assert_eq!(parse_ipv4(&chars("01.0.0.1")), None);
    assert_eq!(parse_ipv6(&chars("::1")), Some(vec![0, 0, 0, 0, 0, 0, 0, 1]));
    assert_eq!(
        parse_ipv6(&chars("2001:db8::7")),
        Some(vec![0x2001, 0xdb8, 0, 0, 0, 0, 0, 7])
    );
    assert_eq!(
        parse_ipv6(&chars("::ffff:1.2.3.4")),
        Some(vec![0, 0, 0, 0, 0, 0xffff, 0x102, 0x304])
    );
    assert_eq!(parse_ipv6(&chars("1::2::3")), None);
    assert_eq!(parse_ipv6(&chars("12345::")), None);
}

#[test]
fn errors_have_a_text() {
    assert_eq!(NetError::Cancelled.message(), "transfer cancelled");
    let challenge = HostKeyChallenge::new("h:22".into(), "SHA256:x".into());
    assert_eq!(challenge.endpoint(), "h:22");
    assert_eq!(challenge.fingerprint(), "SHA256:x");
    assert!(NetError::HostKeyTrustRequired(challenge).message().contains("SHA256:x"));
    assert!(NetError::Io(IoFailure::new(IoKind::Other, "disk full"))
        .message()
        .contains("disk full"));
}
