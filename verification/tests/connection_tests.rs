use sftp_server::connection::{Auth, Credential, SshSession, Subsystem};
use sftp_server::server::{copy_credential, SftpServer};

fn credentials() -> Vec<Credential> {
    vec![
        Credential::Password { user: b"master".to_vec(), secret: b"master".to_vec() },
        Credential::PublicKey { user: b"master".to_vec(), key: vec![1, 2, 3] },
    ]
}

#[test]
fn password_is_accepted_only_for_a_known_pair() {
    let s: SshSession<&str> = SshSession::new(credentials());
    assert_eq!(s.auth_password(b"master", b"master"), Auth::Accept);
    assert_eq!(s.auth_password(b"master", b"wrong"), Auth::Reject);
    assert_eq!(s.auth_password(b"other", b"master"), Auth::Reject);
    assert_eq!(s.auth_password(b"master", &[1, 2, 3]), Auth::Reject);
    assert_eq!(s.auth_password(b"", b""), Auth::Reject);
}

#[test]
fn public_key_is_accepted_only_from_the_trust_store() {
    let s: SshSession<&str> = SshSession::new(credentials());
    assert_eq!(s.auth_publickey(b"master", &[1, 2, 3]), Auth::Accept);
    assert_eq!(s.auth_publickey(b"master", &[1, 2]), Auth::Reject);
    assert_eq!(s.auth_publickey(b"other", &[1, 2, 3]), Auth::Reject);
    assert_eq!(s.auth_publickey(b"master", b"master"), Auth::Reject);
}

#[test]
fn nobody_is_accepted_without_credentials() {
    let s: SshSession<&str> = SshSession::new(Vec::new());
    assert_eq!(s.auth_password(b"master", b"master"), Auth::Reject);
    assert_eq!(s.auth_publickey(b"master", &[1, 2, 3]), Auth::Reject);
}

#[test]
fn channel_is_handed_out_exactly_once() {
    let mut s: SshSession<&str> = SshSession::new(Vec::new());
    assert!(s.channel_open_session(7, "seven"));
    assert_eq!(s.get_channel(7), Some("seven"));
    assert_eq!(s.get_channel(7), None);
    assert_eq!(s.get_channel(8), None);
}

#[test]
fn subsystem_request_hands_channel_to_a_fresh_session() {
    let mut s: SshSession<&str> = SshSession::new(Vec::new());
    s.channel_open_session(1, "one");
    match s.subsystem_request(1, b"sftp") {
        Subsystem::Serve { channel, session } => {
            assert_eq!(channel, "one");
            assert!(!session.is_initialized());
        }
        other => panic!("unexpected decision {:?}", other),
    }
    assert!(matches!(s.subsystem_request(1, b"sftp"), Subsystem::Absent));
}

#[test]
fn other_subsystems_are_rejected_and_keep_the_channel() {
    let mut s: SshSession<&str> = SshSession::new(Vec::new());
    s.channel_open_session(1, "one");
    assert!(matches!(s.subsystem_request(1, b"shell"), Subsystem::Rejected));
    assert!(matches!(s.subsystem_request(1, b"sftpd"), Subsystem::Rejected));
    assert!(matches!(s.subsystem_request(1, b""), Subsystem::Rejected));
    assert_eq!(s.get_channel(1), Some("one"));
}

#[test]
fn two_channels_get_independent_sessions() {
    let mut s: SshSession<&str> = SshSession::new(Vec::new());
    s.channel_open_session(1, "one");
    s.channel_open_session(2, "two");
    let first = match s.subsystem_request(1, b"sftp") {
        Subsystem::Serve { channel, session } => {
            assert_eq!(channel, "one");
            session
        }
        other => panic!("unexpected decision {:?}", other),
    };
    let second = match s.subsystem_request(2, b"sftp") {
        Subsystem::Serve { channel, session } => {
            assert_eq!(channel, "two");
            session
        }
        other => panic!("unexpected decision {:?}", other),
    };
    let mut first = first;
    let mut second = second;
    first.init(3, Some(b"/srv/box".to_vec())).unwrap();
    second.init(3, Some(b"/srv/box".to_vec())).unwrap();
    first.opendir(1, b"/".to_vec()).unwrap();
    second.opendir(1, b"/".to_vec()).unwrap();
    let listing = sftp_server::storage::Listing { opened: true, entries: Vec::new(), complete: true };
    first.readdir_reply(2, b"/", &listing).unwrap();
    assert!(first.is_exhausted(b"/"));
    assert!(!second.is_exhausted(b"/"));
    assert!(second.readdir(b"/", None).is_ok());
    assert_eq!(second.root_dir(), first.root_dir());
}

#[test]
fn reopened_channel_number_replaces_the_waiting_channel() {
    let mut s: SshSession<&str> = SshSession::new(Vec::new());
    s.channel_open_session(1, "old");
    s.channel_open_session(1, "new");
    assert_eq!(s.get_channel(1), Some("new"));
    assert_eq!(s.get_channel(1), None);
}

#[test]
fn end_of_data_closes_the_channel() {
    let s: SshSession<&str> = SshSession::new(Vec::new());
    assert_eq!(s.channel_eof(5), 5);
}

#[test]
fn server_gives_each_client_its_credentials() {
    let mut server = SftpServer::new(credentials());
    let mut a: SshSession<u8> = server.new_client();
    let b: SshSession<u8> = server.new_client();
    assert_eq!(a.auth_password(b"master", b"master"), Auth::Accept);
    assert_eq!(b.auth_publickey(b"master", &[1, 2, 3]), Auth::Accept);
    a.channel_open_session(1, 10);
    let mut b = b;
    assert_eq!(b.get_channel(1), None);
    assert_eq!(a.get_channel(1), Some(10));
    let mut empty = SftpServer::new(Vec::new());
    let c: SshSession<u8> = empty.new_client();
    assert_eq!(c.auth_password(b"master", b"master"), Auth::Reject);
}

#[test]
fn credential_copy_is_equal() {
    let c = Credential::Password { user: b"u".to_vec(), secret: b"s".to_vec() };
    match copy_credential(&c) {
        Credential::Password { user, secret } => {
            assert_eq!(user, b"u".to_vec());
            assert_eq!(secret, b"s".to_vec());
        }
        other => panic!("unexpected credential {:?}", other),
    }
}
