use sftp_server::guard::{FileHandler, GuardError};
use sftp_server::protocol::{OPEN_CREATE, OPEN_READ, OPEN_WRITE};
use sftp_server::session::{create_root_dir, SftpSession, PROTOCOL_VERSION, ROOT_DIR_MODE};
use sftp_server::status::{answer, Status, StatusCode};
use sftp_server::storage::{
    Listing, Metadata, RawEntry, ReadOutcome, StorageAction, WriteOutcome,
};

fn ready() -> SftpSession {
    let mut s = SftpSession::new();
    s.init(3, Some(b"/srv/box".to_vec())).unwrap();
    s
}

fn some(path: &str) -> Option<Vec<u8>> {
    Some(path.as_bytes().to_vec())
}

fn entry(name: &str) -> RawEntry {
    RawEntry {
        name: Some(name.to_string()),
        metadata: Some(Metadata {
            len: 5,
            uid: 1000,
            gid: 1000,
            mode: 0o100644,
            accessed: Some(0),
            modified: Some(0),
        }),
    }
}

fn listing(names: &[&str]) -> Listing {
    Listing { opened: true, entries: names.iter().map(|n| entry(n)).collect(), complete: true }
}

#[test]
fn new_session_has_negotiated_nothing() {
    let s = SftpSession::new();
    assert!(!s.is_initialized());
    assert_eq!(s.negotiated_version(), None);
    assert_eq!(s.root_dir(), b"/".to_vec());
    let d = SftpSession::default();
    assert!(!d.is_initialized());
    assert_eq!(d.unimplemented(), StatusCode::OpUnsupported);
}

#[test]
fn init_records_version_and_root() {
    let mut s = SftpSession::new();
    let v = s.init(3, some("/srv//box/./")).unwrap();
    assert_eq!(v.version, 3);
    assert_eq!(v.version, PROTOCOL_VERSION);
    assert!(v.extensions.is_empty());
    assert!(s.is_initialized());
    assert_eq!(s.negotiated_version(), Some(3));
    assert_eq!(s.root_dir(), b"/srv/box".to_vec());
}

#[test]
fn init_twice_fails_and_keeps_the_version() {
    let mut s = SftpSession::new();
    s.init(3, some("/srv/box")).unwrap();
    assert_eq!(s.init(4, some("/other")), Err(StatusCode::ConnectionLost));
    assert_eq!(s.negotiated_version(), Some(3));
    assert_eq!(s.root_dir(), b"/srv/box".to_vec());
    assert!(StatusCode::ConnectionLost.is_fatal());
    assert!(!StatusCode::PermissionDenied.is_fatal());
}

#[test]
fn init_refuses_a_root_that_cannot_serve() {
    let mut s = SftpSession::new();
    assert_eq!(s.init(3, None), Err(StatusCode::ConnectionLost));
    assert_eq!(s.init(3, some("relative/root")), Err(StatusCode::ConnectionLost));
    assert_eq!(s.init(3, some("/srv/../etc")), Err(StatusCode::ConnectionLost));
    assert_eq!(s.init(3, some("")), Err(StatusCode::ConnectionLost));
    assert!(!s.is_initialized());
    assert!(s.init(3, some("/")).is_ok());
    assert_eq!(s.root_dir(), b"/".to_vec());
}

#[test]
fn root_is_created_with_the_fixed_mode_where_it_is_absent() {
    assert_eq!(create_root_dir(true), None);
    assert_eq!(create_root_dir(false), Some(0o775));
    assert_eq!(ROOT_DIR_MODE, 0o775);
}

#[test]
fn guard_of_a_session_joins_and_judges() {
    let s = ready();
    assert_eq!(s.candidate_path(b"/a/b.txt"), b"/srv/box/a/b.txt".to_vec());
    assert_eq!(s.candidate_path(b"a/b.txt"), b"/srv/box/a/b.txt".to_vec());
    assert_eq!(s.parent_candidate_path(b"/a/b.txt"), b"/srv/box/a".to_vec());
    assert_eq!(s.parent_candidate_path(b""), b"/srv/box".to_vec());
    assert_eq!(SftpSession::handle_parent(b"/srv/box/a/b.txt"), b"/srv/box/a".to_vec());
    let p = s.complete_path(some("/srv/box/a/b.txt")).unwrap();
    assert_eq!(p.to_bytes(), b"/srv/box/a/b.txt".to_vec());
    assert_eq!(s.complete_path(some("/srv")).err(), Some(GuardError::PermissionDenied));
    assert_eq!(s.complete_path(some("/etc/passwd")).err(), Some(GuardError::PermissionDenied));
    assert_eq!(s.complete_path(None).err(), Some(GuardError::NotFound));
    assert_eq!(s.remove_prefix_str(b"/srv/box/a", b"/srv/box"), Ok(b"a".to_vec()));
    assert_eq!(s.remove_prefix_str(b"/srv/box/a", b"/srv/other"), Err(GuardError::InvalidInput));
    assert_eq!(s.remove_prefix_str(b"./a", b"a"), Err(GuardError::InvalidInput));
    assert_eq!(s.remove_prefix_str(b"a", b"./a"), Err(GuardError::InvalidInput));
    assert_eq!(s.remove_prefix_str(b"./a", b"."), Ok(b"a".to_vec()));
    assert_eq!(s.remove_prefix_str(b"/srv/box", b""), Ok(b"/srv/box".to_vec()));
}

#[test]
fn guard_denies_everything_before_the_negotiation() {
    let s = SftpSession::new();
    assert_eq!(s.complete_path(some("/srv/box/a")).err(), Some(GuardError::PermissionDenied));
    assert_eq!(s.complete_path(None).err(), Some(GuardError::PermissionDenied));
    assert_eq!(s.open(b"/a", OPEN_READ, some("/a"), some("/")).err(), Some(StatusCode::PermissionDenied));
    assert_eq!(s.readdir(b"/", None).err(), Some(StatusCode::NoSuchFile));
}

#[test]
fn new_entries_are_judged_by_their_directory() {
    let s = ready();
    let p = s.complete_new_path(b"/docs/new.txt", some("/srv/box/docs")).unwrap();
    assert_eq!(p.to_bytes(), b"/srv/box/docs/new.txt".to_vec());
    assert_eq!(
        s.complete_new_path(b"/docs/..", some("/srv/box/docs")).err(),
        Some(GuardError::PermissionDenied)
    );
    assert_eq!(
        s.complete_new_path(b"/", some("/srv/box")).err(),
        Some(GuardError::PermissionDenied)
    );
    assert_eq!(
        s.complete_new_path(b"/../x", some("/srv")).err(),
        Some(GuardError::PermissionDenied)
    );
    assert_eq!(s.complete_new_path(b"/gone/x", None).err(), Some(GuardError::NotFound));
}

#[test]
fn open_existing_file_uses_the_access_asked_for() {
    let s = ready();
    match s.open(b"/a.txt", OPEN_READ, some("/srv/box/a.txt"), some("/srv/box")).unwrap() {
        StorageAction::Open { path, read, write, create_new } => {
            assert_eq!(path.to_bytes(), b"/srv/box/a.txt".to_vec());
            assert!(read);
            assert!(!write);
            assert!(!create_new);
        }
        other => panic!("unexpected action {:?}", other),
    }
    match s
        .open(b"/a.txt", OPEN_WRITE | OPEN_CREATE, some("/srv/box/a.txt"), some("/srv/box"))
        .unwrap()
    {
        StorageAction::Open { read, write, create_new, .. } => {
            assert!(!read);
            assert!(write);
            assert!(!create_new);
        }
        other => panic!("unexpected action {:?}", other),
    }
}

#[test]
fn open_missing_file_creates_only_where_asked() {
    let s = ready();
    match s.open(b"/new.txt", OPEN_READ | OPEN_WRITE | OPEN_CREATE, None, some("/srv/box")).unwrap()
    {
        StorageAction::Open { path, read, write, create_new } => {
            assert_eq!(path.to_bytes(), b"/srv/box/new.txt".to_vec());
            assert!(read);
            assert!(write);
            assert!(create_new);
        }
        other => panic!("unexpected action {:?}", other),
    }
    assert_eq!(
        s.open(b"/new.txt", OPEN_READ | OPEN_WRITE, None, some("/srv/box")).err(),
        Some(StatusCode::PermissionDenied)
    );
    assert_eq!(
        s.open(b"/gone/new.txt", OPEN_CREATE, None, None).err(),
        Some(StatusCode::PermissionDenied)
    );
}

#[test]
fn open_outside_the_sandbox_is_denied() {
    let s = ready();
    assert_eq!(
        s.open(b"/../etc/passwd", OPEN_READ, some("/etc/passwd"), some("/etc")).err(),
        Some(StatusCode::PermissionDenied)
    );
    assert_eq!(
        s.open(b"/link/new", OPEN_CREATE | OPEN_WRITE, None, some("/etc")).err(),
        Some(StatusCode::PermissionDenied)
    );
}

#[test]
fn open_reply_hands_out_the_path_as_handle() {
    let s = ready();
    let p = s.complete_path(some("/srv/box/a.txt")).unwrap();
    let h = SftpSession::open_reply(7, &p, true).unwrap();
    assert_eq!(h.id, 7);
    assert_eq!(h.handle, b"/srv/box/a.txt".to_vec());
    assert_eq!(SftpSession::open_reply(7, &p, false), Err(StatusCode::PermissionDenied));
}

#[test]
fn close_always_succeeds() {
    let s = ready();
    let st = s.close(9, b"/srv/box/a.txt").unwrap();
    assert_eq!(
        st,
        Status {
            id: 9,
            status_code: StatusCode::Success,
            error_message: "Ok".to_string(),
            language_tag: "en-US".to_string()
        }
    );
    assert!(SftpSession::new().close(1, b"anything").is_ok());
    assert_eq!(answer(2, StatusCode::Eof), Err(StatusCode::Eof));
}

#[test]
fn read_plans_and_answers() {
    let s = ready();
    match s.read(some("/srv/box/a.txt"), 5, 5).unwrap() {
        StorageAction::Read { path, offset, len } => {
            assert_eq!(path.to_bytes(), b"/srv/box/a.txt".to_vec());
            assert_eq!(offset, 5);
            assert_eq!(len, 5);
        }
        other => panic!("unexpected action {:?}", other),
    }
    assert_eq!(s.read(None, 0, 1).err(), Some(StatusCode::NoSuchFile));
    assert_eq!(s.read(some("/etc/passwd"), 0, 1).err(), Some(StatusCode::NoSuchFile));
    let d = SftpSession::read_reply(3, 5, ReadOutcome::Bytes(b"hello".to_vec())).unwrap();
    assert_eq!(d.id, 3);
    assert_eq!(d.data, b"hello".to_vec());
    let short = SftpSession::read_reply(3, 5, ReadOutcome::Bytes(b"he".to_vec())).unwrap();
    assert_eq!(short.data, b"he".to_vec());
    let none = SftpSession::read_reply(3, 5, ReadOutcome::Bytes(Vec::new())).unwrap();
    assert_eq!(none.data, Vec::<u8>::new());
    let cut = SftpSession::read_reply(3, 2, ReadOutcome::Bytes(b"hello".to_vec())).unwrap();
    assert_eq!(cut.data, b"he".to_vec());
    assert_eq!(SftpSession::read_reply(3, 5, ReadOutcome::OpenFailed), Err(StatusCode::NoSuchFile));
    assert_eq!(SftpSession::read_reply(3, 5, ReadOutcome::Failed), Err(StatusCode::Failure));
}

#[test]
fn write_plans_and_answers() {
    let s = ready();
    match s
        .write(b"/srv/box/a.txt", 5, b"hello".to_vec(), some("/srv/box/a.txt"), some("/srv/box"))
        .unwrap()
    {
        StorageAction::Write { path, offset, data, create_new } => {
            assert_eq!(path.to_bytes(), b"/srv/box/a.txt".to_vec());
            assert_eq!(offset, 5);
            assert_eq!(data, b"hello".to_vec());
            assert!(!create_new);
        }
        other => panic!("unexpected action {:?}", other),
    }
    match s.write(b"/srv/box/gone.txt", 0, b"x".to_vec(), None, some("/srv/box")).unwrap() {
        StorageAction::Write { path, create_new, .. } => {
            assert_eq!(path.to_bytes(), b"/srv/box/gone.txt".to_vec());
            assert!(create_new);
        }
        other => panic!("unexpected action {:?}", other),
    }
    assert_eq!(
        s.write(b"/etc/passwd", 0, b"x".to_vec(), some("/etc/passwd"), some("/etc")).err(),
        Some(StatusCode::PermissionDenied)
    );
    assert!(SftpSession::write_reply(1, WriteOutcome::Written).is_ok());
    assert_eq!(
        SftpSession::write_reply(1, WriteOutcome::OpenFailed),
        Err(StatusCode::PermissionDenied)
    );
    assert_eq!(SftpSession::write_reply(1, WriteOutcome::Failed), Err(StatusCode::Failure));
}

#[test]
fn listing_is_delivered_once_per_opendir() {
    let mut s = ready();
    let h = s.opendir(1, b"/".to_vec()).unwrap();
    assert_eq!(h.id, 1);
    assert_eq!(h.handle, b"/".to_vec());
    match s.readdir(b"/", None).unwrap() {
        StorageAction::List { path } => {
            assert_eq!(path.to_bytes(), b"/srv/box".to_vec());
            assert!(path.is_root());
        }
        other => panic!("unexpected action {:?}", other),
    }
    let batch = s.readdir_reply(2, b"/", &listing(&["a", "b", "c"])).unwrap();
    assert_eq!(batch.id, 2);
    assert_eq!(batch.files.len(), 3);
    assert_eq!(batch.files[0].filename, "a");
    assert_eq!(batch.files[2].filename, "c");
    assert!(s.is_exhausted(b"/"));
    assert_eq!(s.readdir(b"/", None).err(), Some(StatusCode::Eof));
    assert_eq!(s.readdir_reply(3, b"/", &listing(&["a"])), Err(StatusCode::Eof));
    assert_eq!(s.readdir(b"/", None).err(), Some(StatusCode::Eof));
    assert!(s.is_exhausted(b"/"));
    s.opendir(4, b"/".to_vec()).unwrap();
    assert!(!s.is_exhausted(b"/"));
    assert!(s.readdir(b"/", None).is_ok());
    let again = s.readdir_reply(5, b"/", &listing(&["a", "b", "c"])).unwrap();
    assert_eq!(again.files.len(), 3);
}

#[test]
fn listing_of_an_empty_directory_is_one_empty_batch() {
    let mut s = ready();
    s.opendir(1, b"/empty".to_vec()).unwrap();
    assert!(s.readdir(b"/empty", some("/srv/box/empty")).is_ok());
    let batch = s.readdir_reply(2, b"/empty", &listing(&[])).unwrap();
    assert!(batch.files.is_empty());
    assert_eq!(s.readdir(b"/empty", some("/srv/box/empty")).err(), Some(StatusCode::Eof));
}

#[test]
fn handles_are_exhausted_one_by_one() {
    let mut s = ready();
    s.opendir(1, b"/a".to_vec()).unwrap();
    s.opendir(2, b"/b".to_vec()).unwrap();
    s.readdir_reply(3, b"/a", &listing(&["x"])).unwrap();
    assert!(s.is_exhausted(b"/a"));
    assert!(!s.is_exhausted(b"/b"));
    assert!(s.readdir(b"/b", some("/srv/box/b")).is_ok());
    s.opendir(4, b"/b".to_vec()).unwrap();
    assert!(s.is_exhausted(b"/a"));
}

#[test]
fn exhausted_handle_reports_eof_though_its_directory_is_gone() {
    let mut s = SftpSession::new();
    s.init(3, some("/")).unwrap();
    s.opendir(1, b"/sub".to_vec()).unwrap();
    assert!(s.readdir(b"/sub", some("/sub")).is_ok());
    s.readdir_reply(2, b"/sub", &listing(&["a"])).unwrap();
    assert_eq!(s.readdir(b"/sub", None).err(), Some(StatusCode::Eof));
    assert_eq!(s.readdir(b"/sub", some("/sub")).err(), Some(StatusCode::Eof));
    assert_eq!(s.readdir_reply(3, b"/sub", &listing(&["a"])), Err(StatusCode::Eof));
    assert!(s.is_exhausted(b"/sub"));

    let mut t = ready();
    t.opendir(1, b"/d".to_vec()).unwrap();
    t.readdir_reply(2, b"/d", &listing(&[])).unwrap();
    assert_eq!(t.readdir(b"/d", some("/etc")).err(), Some(StatusCode::Eof));
    assert_eq!(t.readdir(b"/d", None).err(), Some(StatusCode::Eof));
    t.opendir(3, b"/d".to_vec()).unwrap();
    assert_eq!(t.readdir(b"/d", None).err(), Some(StatusCode::NoSuchFile));
    assert_eq!(t.readdir(b"/d", some("/etc")).err(), Some(StatusCode::NoSuchFile));
    assert!(t.readdir(b"/d", some("/srv/box/d")).is_ok());
}

#[test]
fn listing_errors_leave_the_handle_open() {
    let mut s = ready();
    s.opendir(1, b"/d".to_vec()).unwrap();
    assert_eq!(s.readdir(b"/d", None).err(), Some(StatusCode::NoSuchFile));
    assert_eq!(s.readdir(b"/d", some("/etc")).err(), Some(StatusCode::NoSuchFile));
    let unopened = Listing { opened: false, entries: Vec::new(), complete: true };
    assert_eq!(s.readdir_reply(2, b"/d", &unopened), Err(StatusCode::NoSuchFile));
    let cut = Listing { opened: true, entries: vec![entry("a")], complete: false };
    assert_eq!(s.readdir_reply(2, b"/d", &cut), Err(StatusCode::Failure));
    let bad_name = Listing {
        opened: true,
        entries: vec![entry("a"), RawEntry { name: None, metadata: None }],
        complete: false,
    };
    assert_eq!(s.readdir_reply(2, b"/d", &bad_name), Err(StatusCode::NoSuchFile));
    let bad_meta = Listing {
        opened: true,
        entries: vec![
            RawEntry { name: Some("a".to_string()), metadata: None },
            RawEntry { name: None, metadata: None },
        ],
        complete: true,
    };
    assert_eq!(s.readdir_reply(2, b"/d", &bad_meta), Err(StatusCode::Failure));
    assert!(!s.is_exhausted(b"/d"));
    assert!(s.readdir_reply(2, b"/d", &listing(&["a"])).is_ok());
}

#[test]
fn remove_of_a_missing_file_is_denied() {
    let s = ready();
    assert_eq!(s.remove(None).err(), Some(StatusCode::PermissionDenied));
    assert_eq!(SftpSession::remove_reply(1, false), Err(StatusCode::PermissionDenied));
    match s.remove(some("/srv/box/a.txt")).unwrap() {
        StorageAction::RemoveFile { path } => {
            assert_eq!(path.to_bytes(), b"/srv/box/a.txt".to_vec())
        }
        other => panic!("unexpected action {:?}", other),
    }
    assert_eq!(SftpSession::remove_reply(1, true).unwrap().status_code, StatusCode::Success);
    assert!(s.is_initialized());
}

#[test]
fn mkdir_creates_one_level_within_the_sandbox() {
    let s = ready();
    match s.mkdir(b"/docs/new", some("/srv/box/docs")).unwrap() {
        StorageAction::CreateDir { path } => {
            assert_eq!(path.to_bytes(), b"/srv/box/docs/new".to_vec())
        }
        other => panic!("unexpected action {:?}", other),
    }
    assert_eq!(s.mkdir(b"/a/b/c", None).err(), Some(StatusCode::PermissionDenied));
    assert_eq!(s.mkdir(b"/x", some("/tmp")).err(), Some(StatusCode::PermissionDenied));
    assert!(SftpSession::mkdir_reply(1, true).is_ok());
    assert_eq!(SftpSession::mkdir_reply(1, false), Err(StatusCode::PermissionDenied));
}

#[test]
fn rmdir_of_a_regular_file_is_unsupported() {
    let s = ready();
    match s.rmdir(some("/srv/box/a.txt")).unwrap() {
        StorageAction::RemoveDir { path } => {
            assert_eq!(path.to_bytes(), b"/srv/box/a.txt".to_vec())
        }
        other => panic!("unexpected action {:?}", other),
    }
    assert_eq!(SftpSession::rmdir_step(false), Err(StatusCode::OpUnsupported));
    assert_eq!(SftpSession::rmdir_step(true), Ok(()));
    assert_eq!(SftpSession::rmdir_reply(1, false), Err(StatusCode::PermissionDenied));
    assert_eq!(SftpSession::rmdir_reply(1, true).unwrap().status_code, StatusCode::Success);
    assert_eq!(s.rmdir(None).err(), Some(StatusCode::PermissionDenied));
    assert_eq!(s.rmdir(some("/srv")).err(), Some(StatusCode::PermissionDenied));
}

#[test]
fn realpath_answers_the_root_and_nothing_else() {
    let s = ready();
    let n = s.realpath(4, some("/srv/box/deep/dir")).unwrap();
    assert_eq!(n.id, 4);
    assert_eq!(n.files.len(), 1);
    assert_eq!(n.files[0].filename, "/");
    assert_eq!(n.files[0].attrs.size, None);
    assert_eq!(n.files[0].attrs.permissions, None);
    assert_eq!(n.files[0].attrs.user, None);
    assert_eq!(n.files[0].longname, "---------- 0 0 0 0 Jan 01 1970 00:00 /");
    assert_eq!(s.realpath(4, None).err(), Some(StatusCode::NoSuchFile));
    assert_eq!(s.realpath(4, some("/etc")).err(), Some(StatusCode::NoSuchFile));
}

#[test]
fn status_codes_have_their_wire_numbers() {
    assert_eq!(StatusCode::Success.code(), 0);
    assert_eq!(StatusCode::Eof.code(), 1);
    assert_eq!(StatusCode::NoSuchFile.code(), 2);
    assert_eq!(StatusCode::PermissionDenied.code(), 3);
    assert_eq!(StatusCode::Failure.code(), 4);
    assert_eq!(StatusCode::BadMessage.code(), 5);
    assert_eq!(StatusCode::NoConnection.code(), 6);
    assert_eq!(StatusCode::ConnectionLost.code(), 7);
    assert_eq!(StatusCode::OpUnsupported.code(), 8);
    assert_eq!(StatusCode::from_code(8), Some(StatusCode::OpUnsupported));
    assert_eq!(StatusCode::from_code(0), Some(StatusCode::Success));
    assert_eq!(StatusCode::from_code(9), None);
}
