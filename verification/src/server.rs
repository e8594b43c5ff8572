//! The server: the credentials that every new connection is given.

use crate::connection::{credential_views, Credential, CredentialView, SshSession};
use crate::path::copy_bytes;
use vstd::prelude::*;

verus! {

/// A server that accepts a fixed list of credentials.
#[derive(Debug)]
pub struct SftpServer {
    credentials: Vec<Credential>,
}

/// A copy of the credential.
pub fn copy_credential(c: &Credential) -> (copy: Credential)
    ensures
        copy@ == c@,
{
    match c {
        Credential::Password { user, secret } => Credential::Password {
            user: copy_bytes(user.as_slice()),
            secret: copy_bytes(secret.as_slice()),
        },
        Credential::PublicKey { user, key } => Credential::PublicKey {
            user: copy_bytes(user.as_slice()),
            key: copy_bytes(key.as_slice()),
        },
    }
}

impl SftpServer {
    /// The credentials that the server accepts.
    pub closed spec fn credentials(&self) -> Seq<CredentialView> {
        credential_views(self.credentials@)
    }

    /// A server that accepts `credentials`, and nobody where there are
    /// none.
    pub fn new(credentials: Vec<Credential>) -> (s: SftpServer)
        ensures
            s.credentials() == credential_views(credentials@),
    {
        SftpServer { credentials }
    }

    /// The state of a connection that a peer has just made: it accepts the
    /// server's credentials and has no channel open.
    pub fn new_client<C>(&mut self) -> (client: SshSession<C>)
        ensures
            final(self).credentials() == old(self).credentials(),
            client.credentials() == old(self).credentials(),
            client.channels() == Map::<u32, C>::empty(),
    {
        let mut copies: Vec<Credential> = Vec::new();
        let mut i: usize = 0;
        proof {
            assert(credential_views(copies@) =~= self.credentials().subrange(0, 0));
        }
        while i < self.credentials.len()
            invariant
                0 <= i <= self.credentials.len(),
                credential_views(copies@) == self.credentials().subrange(0, i as int),
            decreases self.credentials.len() - i,
        {
            let copy = copy_credential(&self.credentials[i]);
            let ghost before = credential_views(copies@);
            copies.push(copy);
            proof {
                assert(credential_views(copies@) =~= before.push(copy@));
                assert(self.credentials().subrange(0, i + 1) =~= self.credentials().subrange(
                    0,
                    i as int,
                ).push(self.credentials@[i as int]@));
            }
            i += 1;
        }
        proof {
            assert(self.credentials().subrange(0, i as int) =~= self.credentials());
        }
        SshSession::new(copies)
    }
}

} // verus!
