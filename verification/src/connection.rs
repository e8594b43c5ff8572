//! One connection: who may log in, and which channels wait for a handler.
//!
//! A channel that the peer opens waits in the registry under its number. A
//! request for the file-transfer subsystem takes it out and hands it, with a
//! fresh session, to whoever serves it: no channel is ever handed out twice.

use crate::path::same_bytes;
use crate::session::{SessionState, SftpSession};
use std::collections::HashMap;
use vstd::prelude::*;

verus! {

broadcast use vstd::std_specs::hash::group_hash_axioms;

/// The answer to an attempt to log in.
#[derive(Clone, Copy, Debug, PartialEq, Eq, Structural)]
pub enum Auth {
    Accept,
    Reject,
}

/// One way to log in that the server accepts.
#[derive(Debug)]
pub enum Credential {
    /// The user may log in with this secret.
    Password { user: Vec<u8>, secret: Vec<u8> },
    /// The user may log in with this public key.
    PublicKey { user: Vec<u8>, key: Vec<u8> },
}

/// A credential as values of specifications.
pub enum CredentialView {
    Password { user: Seq<u8>, secret: Seq<u8> },
    PublicKey { user: Seq<u8>, key: Seq<u8> },
}

impl View for Credential {
    type V = CredentialView;

    open spec fn view(&self) -> CredentialView {
        match self {
            Credential::Password { user, secret } => CredentialView::Password {
                user: user@,
                secret: secret@,
            },
            Credential::PublicKey { user, key } => CredentialView::PublicKey {
                user: user@,
                key: key@,
            },
        }
    }
}

/// The credentials held in `v`, each as values of specifications.
pub open spec fn credential_views(v: Seq<Credential>) -> Seq<CredentialView> {
    v.map_values(|c: Credential| c@)
}

/// The name under which the file-transfer subsystem is asked for.
pub open spec fn sftp_name() -> Seq<u8> {
    seq![115u8, 102u8, 116u8, 112u8]
}

/// What becomes of a subsystem request.
#[derive(Debug)]
pub enum Subsystem<C> {
    /// The channel leaves the registry, to be served by this new session.
    Serve { channel: C, session: SftpSession },
    /// The file-transfer subsystem was asked for on a channel that does not
    /// wait in the registry: nothing is done.
    Absent,
    /// Another subsystem was asked for: nothing is done.
    Rejected,
}

/// The state of one connection.
#[derive(Debug)]
pub struct SshSession<C> {
    credentials: Vec<Credential>,
    connections: HashMap<u32, C>,
}

impl<C> SshSession<C> {
    /// The credentials that the connection accepts.
    pub closed spec fn credentials(&self) -> Seq<CredentialView> {
        credential_views(self.credentials@)
    }

    /// The channels that wait for a handler, by number.
    pub closed spec fn channels(&self) -> Map<u32, C> {
        self.connections@
    }

    /// A connection that accepts `credentials`, with no channel open.
    pub fn new(credentials: Vec<Credential>) -> (s: SshSession<C>)
        ensures
            s.credentials() == credential_views(credentials@),
            s.channels() == Map::<u32, C>::empty(),
    {
        SshSession { credentials, connections: HashMap::new() }
    }

    /// Answers an attempt to log in with a password: accepted where the
    /// connection holds this very pair of user and secret.
    pub fn auth_password(&self, user: &[u8], password: &[u8]) -> (a: Auth)
        ensures
            a == (if self.credentials().contains(
                CredentialView::Password { user: user@, secret: password@ },
            ) {
                Auth::Accept
            } else {
                Auth::Reject
            }),
    {
        let ghost wanted = CredentialView::Password { user: user@, secret: password@ };
        let mut i: usize = 0;
        while i < self.credentials.len()
            invariant
                0 <= i <= self.credentials.len(),
                wanted == (CredentialView::Password { user: user@, secret: password@ }),
                forall|j: int| 0 <= j < i ==> #[trigger] self.credentials()[j] != wanted,
            decreases self.credentials.len() - i,
        {
            let found = match &self.credentials[i] {
                Credential::Password { user: u, secret: s } => same_bytes(u.as_slice(), user)
                    && same_bytes(s.as_slice(), password),
                Credential::PublicKey { .. } => false,
            };
            if found {
                proof {
                    assert(self.credentials()[i as int] == wanted);
                }
                return Auth::Accept;
            }
            i += 1;
        }
        Auth::Reject
    }

    /// Answers an attempt to log in with a public key: accepted where the
    /// connection holds this very pair of user and key.
    pub fn auth_publickey(&self, user: &[u8], public_key: &[u8]) -> (a: Auth)
        ensures
            a == (if self.credentials().contains(
                CredentialView::PublicKey { user: user@, key: public_key@ },
            ) {
                Auth::Accept
            } else {
                Auth::Reject
            }),
    {
        let ghost wanted = CredentialView::PublicKey { user: user@, key: public_key@ };
        let mut i: usize = 0;
        while i < self.credentials.len()
            invariant
                0 <= i <= self.credentials.len(),
                wanted == (CredentialView::PublicKey { user: user@, key: public_key@ }),
                forall|j: int| 0 <= j < i ==> #[trigger] self.credentials()[j] != wanted,
            decreases self.credentials.len() - i,
        {
            let found = match &self.credentials[i] {
                Credential::PublicKey { user: u, key: k } => same_bytes(u.as_slice(), user)
                    && same_bytes(k.as_slice(), public_key),
                Credential::Password { .. } => false,
            };
            if found {
                proof {
                    assert(self.credentials()[i as int] == wanted);
                }
                return Auth::Accept;
            }
            i += 1;
        }
        Auth::Reject
    }

    /// Records a channel that the peer opened, under its number. It is
    /// always accepted.
    pub fn channel_open_session(&mut self, channel_id: u32, channel: C) -> (accepted: bool)
        ensures
            accepted,
            final(self).channels() == old(self).channels().insert(channel_id, channel),
            final(self).credentials() == old(self).credentials(),
    {
        self.connections.insert(channel_id, channel);
        true
    }

    /// Takes the channel numbered `channel_id` out of the registry, if it
    /// waits there.
    pub fn get_channel(&mut self, channel_id: u32) -> (channel: Option<C>)
        ensures
            final(self).channels() == old(self).channels().remove(channel_id),
            final(self).credentials() == old(self).credentials(),
            match channel {
                Some(c) => old(self).channels().contains_key(channel_id) && old(
                    self,
                ).channels()[channel_id] == c,
                None => !old(self).channels().contains_key(channel_id),
            },
    {
        self.connections.remove(&channel_id)
    }

    /// Answers the end of a channel's data: the channel with this number is
    /// to be closed.
    pub fn channel_eof(&self, channel_id: u32) -> (close: u32)
        ensures
            close == channel_id,
    {
        channel_id
    }

    /// Decides a subsystem request. For the file-transfer subsystem the
    /// channel leaves the registry together with a session that has not
    /// negotiated yet; a channel that does not wait there and any other
    /// subsystem change nothing.
    pub fn subsystem_request(&mut self, channel_id: u32, name: &[u8]) -> (d: Subsystem<C>)
        ensures
            final(self).credentials() == old(self).credentials(),
            final(self).channels() == (if name@ == sftp_name() {
                old(self).channels().remove(channel_id)
            } else {
                old(self).channels()
            }),
            match d {
                Subsystem::Serve { channel, session } => name@ == sftp_name() && old(
                    self,
                ).channels().contains_key(channel_id) && old(self).channels()[channel_id]
                    == channel && session@ == SessionState::fresh(),
                Subsystem::Absent => name@ == sftp_name() && !old(self).channels().contains_key(
                    channel_id,
                ),
                Subsystem::Rejected => name@ != sftp_name(),
            },
    {
        let asked = name.len() == 4 && name[0] == 115 && name[1] == 102 && name[2] == 116
            && name[3] == 112;
        proof {
            if asked {
                assert(name@ =~= sftp_name());
            }
        }
        if !asked {
            return Subsystem::Rejected;
        }
        match self.get_channel(channel_id) {
            Some(channel) => Subsystem::Serve { channel, session: SftpSession::new() },
            None => Subsystem::Absent,
        }
    }
}

} // verus!
