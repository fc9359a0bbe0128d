use booru_dl::api::{Post, PostInner};
use booru_dl::download::DownloadError;
use booru_dl::hash::hash_bytes;
use booru_dl::scheduler::{
    check_file_existed, FsError, ItemAction, ItemEvent, Scheduler, SingleDownloadResult,
};

const MD5: &str = "9e107d9d372bb6826bd81d3542a419d6";
const CONTENT: &[u8] = b"The quick brown fox jumps over the lazy dog";

fn default_post_data() -> Post {
    Post::from_inner(PostInner {
        id: 1234,
        tags: String::from("foo bar"),
        md5: String::from(MD5),
        file_url: String::from("https://example.org/image/png"),
        image: format!("{MD5}.jpg"),
    })
}

#[test]
fn test_check_file_existed() {
    // A present file whose content hashes to the expected value.
    let is_existed = check_file_existed(Ok(hash_bytes(CONTENT)), MD5).unwrap();
    assert!(is_existed);

    // A present file whose content hashes to something else.
    let is_existed = check_file_existed(Ok(hash_bytes(CONTENT)), "wrong md5").unwrap();
    assert!(!is_existed);

    // A missing file is "absent", not an error.
    let is_existed = check_file_existed(Err(FsError::NotFound), "whatever md5").unwrap();
    assert!(!is_existed);

    // Any other I/O failure propagates.
    let err = check_file_existed(
        Err(FsError::Other(String::from("permission denied"))),
        MD5,
    )
    .unwrap_err();
    assert_eq!(err, FsError::Other(String::from("permission denied")));
}

#[test]
fn test_launch() {
    // One post whose file already exists with matching content:
    // the run finishes with one "existed" outcome.
    let mut s = Scheduler::build("download_dir", vec![default_post_data()], 4);
    assert_eq!(s.items.len(), 1);
    assert_eq!(s.items[0].filepath, "download_dir/1234.jpg");

    let a = s.grant_permit(0);
    assert!(matches!(a, ItemAction::CheckFile));
    let digest = check_file_existed(Ok(hash_bytes(CONTENT)), MD5).unwrap();
    let a = s.deliver(0, ItemEvent::Checked(Ok(digest)));
    assert!(matches!(
        a,
        ItemAction::Complete(Ok(SingleDownloadResult::Existed))
    ));
    assert!(s.is_complete());
    assert_eq!(s.limiter.in_use, 0);
}

#[test]
fn run_with_absent_file_downloads_and_writes_sidecar() {
    // One post, file absent locally: done:1 existed:0 failed:0 and
    // the sidecar carries the comma-separated tags.
    let mut s = Scheduler::build("dl", vec![default_post_data()], 2);

    let a = s.grant_permit(0);
    assert!(matches!(a, ItemAction::CheckFile));
    let a = s.deliver(0, ItemEvent::Checked(Ok(false)));
    assert!(matches!(a, ItemAction::Transfer));
    let a = s.deliver(0, ItemEvent::Transferred(Ok(44)));
    assert!(matches!(a, ItemAction::WriteTags));
    assert_eq!(s.items[0].tag_file_path(), "dl/1234.txt");
    assert_eq!(s.items[0].tag_content(), "foo, bar");
    let a = s.deliver(0, ItemEvent::TagsWritten(Ok(())));
    assert!(matches!(
        a,
        ItemAction::Complete(Ok(SingleDownloadResult::Done))
    ));

    assert_eq!(s.status.done, 1);
    assert_eq!(s.status.existed, 0);
    assert_eq!(s.status.failed, 0);
    assert!(s.is_complete());
}

#[test]
fn run_with_existing_file_makes_no_transfer() {
    // One post whose file already matches: existed:1 and the task
    // is never told to transfer.
    let mut s = Scheduler::build("dl", vec![default_post_data()], 2);
    let a = s.grant_permit(0);
    assert!(matches!(a, ItemAction::CheckFile));
    let a = s.deliver(0, ItemEvent::Checked(Ok(true)));
    assert!(!matches!(a, ItemAction::Transfer));
    assert!(matches!(
        a,
        ItemAction::Complete(Ok(SingleDownloadResult::Existed))
    ));
    assert_eq!(s.status.done, 0);
    assert_eq!(s.status.existed, 1);
    assert_eq!(s.status.failed, 0);
    assert!(s.is_complete());
}

#[test]
fn run_with_server_error_fails_with_diagnostic() {
    // One post whose download answers HTTP 500: failed:1 and the
    // diagnostic names the destination path.
    let mut s = Scheduler::build("dl", vec![default_post_data()], 2);
    s.grant_permit(0);
    let a = s.deliver(0, ItemEvent::Checked(Ok(false)));
    assert!(matches!(a, ItemAction::Transfer));
    let http_error = booru_dl::download::FileTransfer::on_response(500, None).unwrap_err();
    assert!(matches!(http_error, DownloadError::Http(_)));
    let a = s.deliver(0, ItemEvent::Transferred(Err(http_error)));
    match a {
        ItemAction::Complete(Err(msg)) => {
            assert_eq!(msg, "Failed to download: dl/1234.jpg");
            assert!(msg.contains("dl/1234.jpg"));
        }
        _ => panic!("expected a failure outcome"),
    }
    assert_eq!(s.status.done, 0);
    assert_eq!(s.status.existed, 0);
    assert_eq!(s.status.failed, 1);
    assert!(s.is_complete());
}

#[test]
fn failed_tag_write_fails_the_item() {
    let mut s = Scheduler::build("dl", vec![default_post_data()], 2);
    s.grant_permit(0);
    s.deliver(0, ItemEvent::Checked(Ok(false)));
    s.deliver(0, ItemEvent::Transferred(Ok(44)));
    let a = s.deliver(0, ItemEvent::TagsWritten(Err(String::from("read-only"))));
    match a {
        ItemAction::Complete(Err(msg)) => {
            assert_eq!(msg, "Failed to write tags: dl/1234.txt");
        }
        _ => panic!("expected a failure outcome"),
    }
    assert_eq!(s.status.failed, 1);
}

#[test]
fn check_error_fails_the_item() {
    let mut s = Scheduler::build("dl", vec![default_post_data()], 2);
    s.grant_permit(0);
    let a = s.deliver(
        0,
        ItemEvent::Checked(Err(FsError::Other(String::from("permission denied")))),
    );
    match a {
        ItemAction::Complete(Err(msg)) => {
            assert_eq!(
                msg,
                "Failed to check if file is already existed: dl/1234.jpg"
            );
        }
        _ => panic!("expected a failure outcome"),
    }
    assert_eq!(s.status.failed, 1);
}

#[test]
fn hundred_one_records_with_cap_eight() {
    // 101 posts under a concurrency cap of 8: every item yields
    // exactly one outcome, no more than 8 permits are ever held,
    // and the counters sum to 101.
    let mut posts = Vec::new();
    for id in 0..101u64 {
        posts.push(Post::from_inner(PostInner {
            id,
            tags: String::from("a b"),
            md5: String::from(MD5),
            file_url: String::from("https://example.org/x.png"),
            image: String::from("x.png"),
        }));
    }
    let mut s = Scheduler::build("dl", posts, 8);
    assert_eq!(s.limiter.capacity, 8);

    let total = s.items.len();
    let mut next = 0usize;
    let mut active: Vec<usize> = Vec::new();
    let mut outcomes = 0usize;
    while !s.is_complete() {
        while next < total && s.limiter.in_use < s.limiter.capacity {
            let a = s.grant_permit(next);
            assert!(matches!(a, ItemAction::CheckFile));
            active.push(next);
            next += 1;
        }
        assert!(s.limiter.in_use <= 8);
        assert!(!active.is_empty());
        // Completions arrive in an arbitrary order; take from the
        // middle.
        let i = active.remove(active.len() / 2);
        let a = match i % 3 {
            0 => s.deliver(i, ItemEvent::Checked(Ok(true))),
            1 => {
                let a = s.deliver(i, ItemEvent::Checked(Ok(false)));
                assert!(matches!(a, ItemAction::Transfer));
                let a = s.deliver(i, ItemEvent::Transferred(Ok(10)));
                assert!(matches!(a, ItemAction::WriteTags));
                s.deliver(i, ItemEvent::TagsWritten(Ok(())))
            }
            _ => {
                let a = s.deliver(i, ItemEvent::Checked(Ok(false)));
                assert!(matches!(a, ItemAction::Transfer));
                s.deliver(
                    i,
                    ItemEvent::Transferred(Err(DownloadError::ZeroContentLength)),
                )
            }
        };
        assert!(matches!(a, ItemAction::Complete(_)));
        outcomes += 1;
    }
    assert_eq!(outcomes, 101);
    assert_eq!(
        s.status.done + s.status.existed + s.status.failed,
        101
    );
    assert_eq!(s.limiter.in_use, 0);
    // 0,3,...,99 existed (34); 1,4,...,100 done (34); 2,5,...,98 failed (33).
    assert_eq!(s.status.existed, 34);
    assert_eq!(s.status.done, 34);
    assert_eq!(s.status.failed, 33);
}

#[test]
fn status_message_shows_counts() {
    let mut s = Scheduler::build("dl", vec![default_post_data()], 1);
    assert_eq!(s.status.message(), "[done:0\texisted:0\tfailed:0]");
    s.grant_permit(0);
    s.deliver(0, ItemEvent::Checked(Ok(true)));
    assert_eq!(s.status.message(), "[done:0\texisted:1\tfailed:0]");
}
