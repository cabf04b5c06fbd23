use std::collections::HashMap;

use gmacftp::net::ftp::download::{download, Download, DownloadEvent, DownloadRequest};
use gmacftp::net::ftp::promote::{Promotion, PromotionStep};
use gmacftp::net::ftp::upload::{
    discard_resumable_upload, Upload, UploadEvent, UploadPhase, UploadRequest,
};
use gmacftp::net::ftp::FtpFailure;
use gmacftp::net::transfer_rules::validate_upload_source;
use gmacftp::net::{IoFailure, IoKind, NetError, RemoteStagingPaths, UploadResume};

fn refusal(text: &str) -> FtpFailure {
    FtpFailure { code: None, text: text.into() }
}

/// A server that keeps its files in memory.
struct MemoryFtp {
    files: HashMap<String, Vec<u8>>,
    bytes_before_failure: Option<usize>,
    destination: String,
    fail_second_promotion: bool,
    resume_offset: Option<u64>,
    writing: Option<String>,
    commands: usize,
}

impl MemoryFtp {
    fn new(destination: &str, old: &[u8]) -> Self {
        MemoryFtp {
            files: HashMap::from([(destination.to_string(), old.to_vec())]),
            bytes_before_failure: None,
            destination: destination.into(),
            fail_second_promotion: false,
            resume_offset: None,
            writing: None,
            commands: 0,
        }
    }

    fn rename(&mut self, from: &str, to: &str) -> Result<(), FtpFailure> {
        if self.files.contains_key(to) {
            return Err(refusal("target exists"));
        }
        if self.fail_second_promotion
            && from.contains("/.gmacftp-upload-")
            && to == self.destination
        {
            return Err(refusal("injected promotion failure"));
        }
        match self.files.remove(from) {
            Some(bytes) => {
                self.files.insert(to.into(), bytes);
                Ok(())
            }
            None => Err(refusal("source missing")),
        }
    }

    /// Write as much as the server takes; `false` where it stops on the way.
    fn write(&mut self, bytes: &[u8]) -> bool {
        let count = match self.bytes_before_failure {
            Some(left) => left.min(bytes.len()),
            None => bytes.len(),
        };
        let path = self.writing.clone().unwrap();
        self.files.entry(path).or_default().extend_from_slice(&bytes[..count]);
        if let Some(left) = &mut self.bytes_before_failure {
            *left -= count;
        }
        count == bytes.len()
    }
}

/// Run an upload against the server, and note the progress that it reports.
fn run(
    ftp: &mut MemoryFtp,
    source: &[u8],
    destination: &str,
    resume: Option<UploadResume>,
    progress: &mut Vec<u64>,
) -> Result<u64, NetError> {
    let mut upload = Upload::begin(destination, resume)?;
    let mut position: usize = 0;
    loop {
        let request = upload.request();
        ftp.commands += 1;
        let event = match request {
            UploadRequest::MakeDirectory(_) => UploadEvent::Reply(Ok(())),
            UploadRequest::Size(path) => {
                UploadEvent::Size(Ok(ftp.files.get(&path).map(|file| file.len() as u64)))
            }
            UploadRequest::Remove(path) => {
                ftp.files.remove(&path);
                UploadEvent::Reply(Ok(()))
            }
            UploadRequest::Restart(offset) => {
                ftp.resume_offset = Some(offset);
                UploadEvent::Reply(Ok(()))
            }
            UploadRequest::SeekSource(offset) => {
                position = offset as usize;
                UploadEvent::Source(Ok(()))
            }
            UploadRequest::Report(done) => {
                progress.push(done);
                UploadEvent::Reported
            }
            UploadRequest::Store(path) => {
                if ftp.resume_offset.take().is_none() {
                    ftp.files.insert(path.clone(), Vec::new());
                }
                ftp.writing = Some(path);
                UploadEvent::Reply(Ok(()))
            }
            UploadRequest::SendNext => {
                let end = source.len().min(position + 64 * 1024);
                if position == end {
                    UploadEvent::SourceEnded
                } else if ftp.write(&source[position..end]) {
                    let count = (end - position) as u64;
                    position = end;
                    UploadEvent::Sent(count)
                } else {
                    UploadEvent::SendFailed(NetError::Io(IoFailure::new(
                        IoKind::Other,
                        "injected STOR failure",
                    )))
                }
            }
            UploadRequest::Close => UploadEvent::Closed(Ok(()), false),
            UploadRequest::Rename { from, to } => UploadEvent::Reply(ftp.rename(&from, &to)),
            UploadRequest::Finished => break,
        };
        upload = upload.handle(event);
    }
    match upload.phase {
        UploadPhase::Over(result) => result,
        _ => panic!("the upload is not over"),
    }
}

#[test]
fn upload_replaces_only_after_complete_staged_transfer() {
    let destination = "/site/app.bin";
    let mut ftp = MemoryFtp::new(destination, b"old complete data");
    let expected = vec![0x5a; 128 * 1024 + 17];

    let mut progress = Vec::new();
    let uploaded = run(&mut ftp, &expected, destination, None, &mut progress).unwrap();
    assert_eq!(uploaded, expected.len() as u64);
    assert_eq!(progress, vec![64 * 1024, 128 * 1024, 128 * 1024 + 17]);
    assert_eq!(ftp.files.get(destination), Some(&expected));
    assert_eq!(ftp.files.len(), 1, "temporary and backup files must be removed");
}

#[test]
fn failed_upload_keeps_destination_and_removes_partial_stage() {
    let destination = "/site/app.bin";
    let mut ftp = MemoryFtp::new(destination, b"old complete data");
    ftp.bytes_before_failure = Some(70_000);
    let expected = vec![0x7b; 128 * 1024];

    assert!(run(&mut ftp, &expected, destination, None, &mut Vec::new()).is_err());
    assert_eq!(
        ftp.files.get(destination).map(Vec::as_slice),
        Some(&b"old complete data"[..])
    );
    assert_eq!(ftp.files.len(), 1, "partial staging file must be removed");
}

#[test]
fn resumable_ftp_upload_preserves_then_appends_private_stage() {
    let destination = "/site/app.bin";
    let mut ftp = MemoryFtp::new(destination, b"old complete data");
    ftp.bytes_before_failure = Some(70_000);
    let expected = vec![0x31; 192 * 1024 + 23];
    let resume = UploadResume {
        token: 42,
        expected_total: expected.len() as u64,
        expected_modified_unix_nanos: 1,
    };

    assert!(run(&mut ftp, &expected, destination, Some(resume), &mut Vec::new()).is_err());
    let staging = RemoteStagingPaths::for_resumable_destination(destination, resume.token).unwrap();
    assert_eq!(
        ftp.files.get(destination).map(Vec::as_slice),
        Some(&b"old complete data"[..])
    );
    assert_eq!(ftp.files.get(&staging.temporary).map(Vec::len), Some(70_000));

    ftp.bytes_before_failure = None;
    let mut progress = Vec::new();
    let uploaded = run(&mut ftp, &expected, destination, Some(resume), &mut progress).unwrap();
    assert_eq!(progress.first().copied(), Some(70_000));
    assert_eq!(progress.last().copied(), Some(expected.len() as u64));
    assert!(progress.windows(2).all(|pair| pair[0] < pair[1]));
    assert_eq!(uploaded, expected.len() as u64);
    assert_eq!(ftp.files.get(destination), Some(&expected));
    assert_eq!(ftp.files.len(), 1);
}

#[test]
fn resumable_upload_rejects_a_changed_local_source_before_remote_io() {
    let source = b"new data";
    let result = validate_upload_source(
        source.len() as u64,
        Some(1_700_000_000_000_000_000),
        UploadResume { token: 9, expected_total: 8, expected_modified_unix_nanos: 0 },
    );
    assert!(matches!(result, Err(NetError::UploadSourceChanged)));
}

#[test]
fn failed_ftp_promotion_rolls_previous_destination_back() {
    let destination = "/site/app.bin";
    let mut ftp = MemoryFtp::new(destination, b"old complete data");
    ftp.fail_second_promotion = true;

    assert!(run(&mut ftp, b"new complete data", destination, None, &mut Vec::new()).is_err());
    assert_eq!(
        ftp.files.get(destination).map(Vec::as_slice),
        Some(&b"old complete data"[..])
    );
    assert_eq!(ftp.files.len(), 1, "rollback must clean every staging path");
}

#[test]
fn a_stage_that_is_too_long_is_thrown_away() {
    let destination = "/site/app.bin";
    let mut ftp = MemoryFtp::new(destination, b"old");
    let resume =
        UploadResume { token: 7, expected_total: 4, expected_modified_unix_nanos: 1 };
    let staging = RemoteStagingPaths::for_resumable_destination(destination, 7).unwrap();
    ftp.files.insert(staging.temporary.clone(), vec![1; 9]);
    let uploaded = run(&mut ftp, b"new!", destination, Some(resume), &mut Vec::new()).unwrap();
    assert_eq!(uploaded, 4);
    assert_eq!(ftp.files.get(destination).map(Vec::as_slice), Some(&b"new!"[..]));
    assert_eq!(ftp.files.len(), 1);
}

#[test]
fn a_whole_stage_is_promoted_without_another_transfer() {
    let destination = "/site/app.bin";
    let mut ftp = MemoryFtp::new(destination, b"old");
    let resume =
        UploadResume { token: 7, expected_total: 4, expected_modified_unix_nanos: 1 };
    let staging = RemoteStagingPaths::for_resumable_destination(destination, 7).unwrap();
    ftp.files.insert(staging.temporary.clone(), b"new!".to_vec());
    let mut progress = Vec::new();
    let uploaded = run(&mut ftp, b"new!", destination, Some(resume), &mut progress).unwrap();
    assert_eq!(uploaded, 4);
    assert_eq!(progress, vec![4]);
    assert!(ftp.writing.is_none());
    assert_eq!(ftp.files.get(destination).map(Vec::as_slice), Some(&b"new!"[..]));
}

#[test]
fn unsafe_upload_destinations_are_refused_before_any_command() {
    for destination in ["/", "a\r\nDELE b", ".."] {
        let mut ftp = MemoryFtp::new(destination, b"old");
        assert!(run(&mut ftp, b"new", destination, None, &mut Vec::new()).is_err());
        assert_eq!(ftp.commands, 0);
    }
    assert!(matches!(
        Upload::begin("/a", Some(UploadResume {
            token: 0,
            expected_total: 1,
            expected_modified_unix_nanos: 1
        })),
        Err(NetError::InvalidPath(_))
    ));
}

#[test]
fn discarded_stages_have_a_stable_name() {
    assert_eq!(
        discard_resumable_upload("/site/app.bin", 0x2a).unwrap(),
        "/site/.gmacftp-upload-000000000000002a"
    );
    assert!(discard_resumable_upload("/site/app.bin", 0).is_err());
}

#[test]
fn a_refused_promotion_puts_the_old_file_back() {
    let staging = RemoteStagingPaths { temporary: "/t".into(), backup: "/b".into() };
    let mut promotion = Promotion::new(&staging, "/d", false);
    let mut steps = Vec::new();
    for outcome in [Err(refusal("exists")), Ok(()), Err(refusal("full")), Ok(()), Ok(())] {
        steps.push(promotion.command());
        promotion = promotion.answer(outcome);
    }
    assert_eq!(
        steps,
        vec![
            PromotionStep::Rename { from: "/t".into(), to: "/d".into() },
            PromotionStep::Rename { from: "/d".into(), to: "/b".into() },
            PromotionStep::Rename { from: "/t".into(), to: "/d".into() },
            PromotionStep::Rename { from: "/b".into(), to: "/d".into() },
            PromotionStep::Remove("/t".into()),
        ]
    );
    assert_eq!(promotion.command(), PromotionStep::Finished);
    assert!(promotion.result().is_err());
}

/// Run a download of `content`; `refuse_rest` makes the server refuse to continue a part.
fn fetch(
    start: Download,
    content: &[u8],
    part: &mut Vec<u8>,
    refuse_rest: bool,
    fail_at: Option<usize>,
) -> (Vec<&'static str>, Download, Vec<u64>) {
    let mut download = start;
    let mut names = Vec::new();
    let mut progress = Vec::new();
    let mut position = 0;
    loop {
        let (name, event) = match download.request() {
            DownloadRequest::Restart(offset) => {
                if refuse_rest {
                    ("restart", DownloadEvent::Reply(Err(FtpFailure {
                        code: Some(502),
                        text: "no".into(),
                    })))
                } else {
                    position = offset as usize;
                    ("restart", DownloadEvent::Reply(Ok(())))
                }
            }
            DownloadRequest::TruncatePart => {
                part.clear();
                ("truncate", DownloadEvent::Local(Ok(())))
            }
            DownloadRequest::Retrieve(_) => ("retrieve", DownloadEvent::Reply(Ok(()))),
            DownloadRequest::Report(done) => {
                progress.push(done);
                download = download.handle(DownloadEvent::Reported);
                continue;
            }
            DownloadRequest::ReceiveNext => {
                if fail_at == Some(position) {
                    ("receive", DownloadEvent::Failed(NetError::Cancelled))
                } else if position < content.len() {
                    part.push(content[position]);
                    position += 1;
                    ("receive", DownloadEvent::Received(1))
                } else {
                    ("receive", DownloadEvent::Ended)
                }
            }
            DownloadRequest::Close => ("close", DownloadEvent::Reply(Ok(()))),
            DownloadRequest::SyncPart => ("sync", DownloadEvent::Local(Ok(()))),
            DownloadRequest::RenamePart => ("rename", DownloadEvent::Local(Ok(()))),
            DownloadRequest::RemovePart => {
                part.clear();
                ("remove", DownloadEvent::Local(Ok(())))
            }
            DownloadRequest::Finished => break,
        };
        if names.last() != Some(&name) {
            names.push(name);
        }
        download = download.handle(event);
    }
    (names, download, progress)
}

#[test]
fn a_download_replaces_its_destination_last() {
    let mut part = Vec::new();
    let (names, end, progress) = fetch(download("/f").unwrap(), b"abc", &mut part, false, None);
    assert_eq!(names, vec!["retrieve", "receive", "close", "sync", "rename"]);
    assert_eq!(part, b"abc");
    assert_eq!(end.done, 3);
    assert_eq!(progress, vec![1, 2, 3]);
    assert!(matches!(end.phase, gmacftp::net::ftp::download::DownloadPhase::Over(Ok(3))));
}

#[test]
fn a_part_is_continued_or_started_over() {
    let mut part = b"ab".to_vec();
    let start = Download::begin("/f", 2, true).unwrap();
    let (names, _, progress) = fetch(start, b"abcd", &mut part, false, None);
    assert_eq!(names[0], "restart");
    assert_eq!(part, b"abcd");
    assert_eq!(progress, vec![2, 3, 4]);

    let mut part = b"xx".to_vec();
    let start = Download::begin("/f", 2, true).unwrap();
    let (names, _, progress) = fetch(start, b"abcd", &mut part, true, None);
    assert_eq!(&names[..2], &["restart", "truncate"]);
    assert_eq!(part, b"abcd");
    assert_eq!(progress, vec![1, 2, 3, 4]);
}

#[test]
fn a_failed_download_keeps_only_a_part_that_can_be_continued() {
    let mut part = Vec::new();
    let start = Download::begin("/f", 0, false).unwrap();
    let (names, _, progress) = fetch(start, b"abcd", &mut part, false, Some(2));
    assert!(names.contains(&"remove"));
    assert_eq!(progress, vec![1, 2]);
    assert!(!names.contains(&"rename"));

    let mut part = Vec::new();
    let start = Download::begin("/f", 0, true).unwrap();
    let (names, _, progress) = fetch(start, b"abcd", &mut part, false, Some(2));
    assert!(!names.contains(&"remove"));
    assert_eq!(part, b"ab");
    assert_eq!(progress, vec![1, 2]);
    assert!(Download::begin("/f\r\nQUIT", 0, true).is_err());
}

#[test]
fn an_empty_file_reports_no_progress() {
    let mut part = Vec::new();
    let (_, end, progress) = fetch(download("/f").unwrap(), b"", &mut part, false, None);
    assert_eq!(end.done, 0);
    assert!(progress.is_empty());

    let mut ftp = MemoryFtp::new("/site/app.bin", b"old");
    let mut progress = Vec::new();
    assert_eq!(run(&mut ftp, b"", "/site/app.bin", None, &mut progress).unwrap(), 0);
    assert!(progress.is_empty());
}
