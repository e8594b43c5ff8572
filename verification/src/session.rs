//! One file-transfer session: what it answers to each request.
//!
//! A session decides and never touches storage. For a request it names the
//! action that the storage is to perform, on a path that the guard accepted;
//! once the storage has answered, it turns the outcome into the reply.

use crate::flags::{handle_set, holds, lowered, raised};
use crate::guard::{
    candidate, confine, confine_new, guard_verdict, guard_verdict_new, option_bytes,
    parent_candidate, FileHandler, GuardError, ResolvedPath,
};
use crate::path::{
    all_normal, any_parent_dir, has_parent_dir, is_absolute, lemma_segments_normal, rendered,
    render, segments, split_segments, views, SEPARATOR,
};
use crate::prefix::strip_prefix;
use crate::protocol::{
    default_attributes, file_entry, file_views, flags_contain, new_file, no_attributes,
    protocol_version, Data, FileView, Handle, Name, Version, OPEN_CREATE, OPEN_READ, OPEN_WRITE,
};
use crate::status::{answer, answered, Status, StatusCode};
use crate::storage::{
    decided, list_files, listing_verdict, ActionView, Listing, ReadOutcome, StorageAction,
    WriteOutcome,
};
use vstd::prelude::*;

verus! {

/// The state of a session as values of specifications.
pub struct SessionState {
    /// The version that was negotiated, if any.
    pub version: Option<u32>,
    /// The segments of the sandbox root.
    pub root: Seq<Seq<u8>>,
    /// The directory handles whose listing has been delivered.
    pub exhausted: Set<Seq<u8>>,
}

/// The version of the protocol that a session speaks.
pub const PROTOCOL_VERSION: u32 = 3;

/// The mode that a sandbox root is created with.
pub const ROOT_DIR_MODE: u32 = 0o775;

/// Says how to make sure that the sandbox root exists: where it does not,
/// it is to be created, with all its parents, and given the mode that is
/// handed out.
pub fn create_root_dir(exists: bool) -> (mode: Option<u32>)
    ensures
        mode == (if exists {
            None
        } else {
            Some(ROOT_DIR_MODE)
        }),
{
    if exists {
        None
    } else {
        Some(ROOT_DIR_MODE)
    }
}

/// The handle that stands for the sandbox root in a listing.
pub open spec fn root_sentinel() -> Seq<u8> {
    seq![SEPARATOR]
}

/// Whether `root` can serve as a sandbox root: an absolute path that steps
/// to no parent.
pub open spec fn valid_root(root: Option<Seq<u8>>) -> bool {
    match root {
        None => false,
        Some(r) => is_absolute(r) && !has_parent_dir(segments(r)),
    }
}

impl SessionState {
    /// The state of a session before the negotiation.
    pub open spec fn fresh() -> SessionState {
        SessionState { version: None, root: Seq::empty(), exhausted: Set::empty() }
    }

    /// Whether a version was negotiated, and with it a root recorded.
    pub open spec fn ready(self) -> bool {
        self.version.is_some()
    }

    /// What the guard says of the file system's answer `canonical`.
    pub open spec fn resolve(self, canonical: Option<Seq<u8>>) -> Result<Seq<Seq<u8>>, GuardError> {
        guard_verdict(self.ready(), self.root, canonical)
    }

    /// What the guard says of an entry that `path` names and that need not
    /// exist, from the file system's answer `parent` for its directory.
    pub open spec fn resolve_new(self, path: Seq<u8>, parent: Option<Seq<u8>>) -> Result<
        Seq<Seq<u8>>,
        GuardError,
    > {
        guard_verdict_new(self.ready(), self.root, path, parent)
    }

    /// The path to act on, and whether the entry is to be created: the
    /// entry itself where the file system found it, and else, where
    /// `may_create` allows, a new entry in its directory.
    pub open spec fn resolve_or_create(
        self,
        path: Seq<u8>,
        target: Option<Seq<u8>>,
        parent: Option<Seq<u8>>,
        may_create: bool,
    ) -> Result<(Seq<Seq<u8>>, bool), GuardError> {
        match self.resolve(target) {
            Ok(p) => Ok((p, false)),
            Err(e) => if e == GuardError::NotFound && may_create {
                match self.resolve_new(path, parent) {
                    Ok(p) => Ok((p, true)),
                    Err(e2) => Err(e2),
                }
            } else {
                Err(e)
            },
        }
    }

    /// Whether a negotiation is accepted: none took place before, and the
    /// root can serve.
    pub open spec fn init_accepted(self, root: Option<Seq<u8>>) -> bool {
        self.version.is_none() && valid_root(root)
    }

    /// What a negotiation is answered: the version of the protocol, or the
    /// loss of the connection.
    pub open spec fn init_answer(self, root: Option<Seq<u8>>) -> Result<u32, StatusCode> {
        if self.init_accepted(root) {
            Ok(PROTOCOL_VERSION)
        } else {
            Err(StatusCode::ConnectionLost)
        }
    }

    /// The state after a negotiation was asked for.
    pub open spec fn after_init(self, version: u32, root: Option<Seq<u8>>) -> SessionState {
        if self.init_accepted(root) {
            SessionState {
                version: Some(version),
                root: segments(root.unwrap()),
                exhausted: self.exhausted,
            }
        } else {
            self
        }
    }

    /// What an open request leads to.
    pub open spec fn open_plan(
        self,
        filename: Seq<u8>,
        pflags: u32,
        target: Option<Seq<u8>>,
        parent: Option<Seq<u8>>,
    ) -> Result<ActionView, StatusCode> {
        match self.resolve_or_create(
            filename,
            target,
            parent,
            pflags & OPEN_CREATE == OPEN_CREATE,
        ) {
            Ok((path, fresh)) => Ok(
                ActionView::Open {
                    path,
                    read: pflags & OPEN_READ == OPEN_READ,
                    write: pflags & OPEN_WRITE == OPEN_WRITE,
                    create_new: fresh,
                },
            ),
            Err(_) => Err(StatusCode::PermissionDenied),
        }
    }

    /// What a read request leads to.
    pub open spec fn read_plan(self, target: Option<Seq<u8>>, offset: u64, len: u32) -> Result<
        ActionView,
        StatusCode,
    > {
        match self.resolve(target) {
            Ok(path) => Ok(ActionView::Read { path, offset, len }),
            Err(_) => Err(StatusCode::NoSuchFile),
        }
    }

    /// What a write request leads to.
    pub open spec fn write_plan(
        self,
        handle: Seq<u8>,
        offset: u64,
        data: Seq<u8>,
        target: Option<Seq<u8>>,
        parent: Option<Seq<u8>>,
    ) -> Result<ActionView, StatusCode> {
        match self.resolve_or_create(handle, target, parent, true) {
            Ok((path, fresh)) => Ok(ActionView::Write { path, offset, data, create_new: fresh }),
            Err(_) => Err(StatusCode::PermissionDenied),
        }
    }

    /// The state after a directory was opened under the handle `path`.
    pub open spec fn after_opendir(self, path: Seq<u8>) -> SessionState {
        SessionState { exhausted: self.exhausted.remove(path), ..self }
    }

    /// The directory that the handle of a listing stands for: the sandbox
    /// root for the sentinel, else what the guard accepts.
    pub open spec fn resolve_dir(self, handle: Seq<u8>, canonical: Option<Seq<u8>>) -> Result<
        Seq<Seq<u8>>,
        GuardError,
    > {
        if handle == root_sentinel() {
            if self.ready() {
                Ok(self.root)
            } else {
                Err(GuardError::PermissionDenied)
            }
        } else {
            self.resolve(canonical)
        }
    }

    /// What a listing request leads to. The flag of the handle is looked at
    /// first: an exhausted handle ends in the end-of-listing signal whatever
    /// has become of its directory, and only another handle is resolved.
    pub open spec fn readdir_plan(self, handle: Seq<u8>, canonical: Option<Seq<u8>>) -> Result<
        ActionView,
        StatusCode,
    > {
        if self.exhausted.contains(handle) {
            Err(StatusCode::Eof)
        } else {
            match self.resolve_dir(handle, canonical) {
                Err(_) => Err(StatusCode::NoSuchFile),
                Ok(path) => Ok(ActionView::List { path }),
            }
        }
    }

    /// What a listing request is answered once the storage has listed.
    pub open spec fn readdir_answer(self, handle: Seq<u8>, listing: Listing) -> Result<
        Seq<FileView>,
        StatusCode,
    > {
        if self.exhausted.contains(handle) {
            Err(StatusCode::Eof)
        } else {
            listing_verdict(listing)
        }
    }

    /// The state after a listing request was answered.
    pub open spec fn after_readdir(self, handle: Seq<u8>, listing: Listing) -> SessionState {
        if self.readdir_answer(handle, listing).is_ok() {
            SessionState { exhausted: self.exhausted.insert(handle), ..self }
        } else {
            self
        }
    }

    /// What a request to remove a file leads to.
    pub open spec fn remove_plan(self, target: Option<Seq<u8>>) -> Result<ActionView, StatusCode> {
        match self.resolve(target) {
            Ok(path) => Ok(ActionView::RemoveFile { path }),
            Err(_) => Err(StatusCode::PermissionDenied),
        }
    }

    /// What a request to create a directory leads to.
    pub open spec fn mkdir_plan(self, path: Seq<u8>, parent: Option<Seq<u8>>) -> Result<
        ActionView,
        StatusCode,
    > {
        match self.resolve_new(path, parent) {
            Ok(path) => Ok(ActionView::CreateDir { path }),
            Err(_) => Err(StatusCode::PermissionDenied),
        }
    }

    /// What a request to remove a directory leads to.
    pub open spec fn rmdir_plan(self, target: Option<Seq<u8>>) -> Result<ActionView, StatusCode> {
        match self.resolve(target) {
            Ok(path) => Ok(ActionView::RemoveDir { path }),
            Err(_) => Err(StatusCode::PermissionDenied),
        }
    }
}

/// The state of one file-transfer session.
#[derive(Debug)]
pub struct SftpSession {
    version: Option<u32>,
    server_root_dir: Vec<Vec<u8>>,
    exhausted: Vec<Vec<u8>>,
}

impl View for SftpSession {
    type V = SessionState;

    closed spec fn view(&self) -> SessionState {
        SessionState {
            version: self.version,
            root: views(self.server_root_dir@),
            exhausted: handle_set(self.exhausted@),
        }
    }
}

impl SftpSession {
    #[verifier::type_invariant]
    spec fn root_is_canonical(&self) -> bool {
        &&& !has_parent_dir(views(self.server_root_dir@))
        &&& all_normal(views(self.server_root_dir@))
    }

    /// A session before the negotiation.
    pub fn new() -> (s: SftpSession)
        ensures
            s@ == SessionState::fresh(),
    {
        let s = SftpSession { version: None, server_root_dir: Vec::new(), exhausted: Vec::new() };
        proof {
            assert(views(s.server_root_dir@) =~= Seq::<Seq<u8>>::empty());
            assert(views(s.exhausted@) =~= Seq::<Seq<u8>>::empty());
            assert(handle_set(s.exhausted@) =~= Set::<Seq<u8>>::empty());
        }
        s
    }

    /// Whether a version was negotiated.
    pub fn is_initialized(&self) -> (yes: bool)
        ensures
            yes == self@.ready(),
    {
        self.version.is_some()
    }

    /// The version that was negotiated, if any.
    pub fn negotiated_version(&self) -> (v: Option<u32>)
        ensures
            v == self@.version,
    {
        self.version
    }

    /// The sandbox root as a path.
    pub fn root_dir(&self) -> (path: Vec<u8>)
        ensures
            path@ == rendered(self@.root),
    {
        render(&self.server_root_dir)
    }

    /// Whether the listing under the directory handle has been delivered.
    pub fn is_exhausted(&self, handle: &[u8]) -> (yes: bool)
        ensures
            yes == self@.exhausted.contains(handle@),
    {
        holds(&self.exhausted, handle)
    }

    /// The error that a request gets for which there is no handler.
    pub fn unimplemented(&self) -> (code: StatusCode)
        ensures
            code == StatusCode::OpUnsupported,
    {
        StatusCode::OpUnsupported
    }

    /// Negotiates the version. `root` is the canonical path of the sandbox
    /// root, which the caller has made sure exists, or `None` where it could
    /// not. A second negotiation is refused and ends the connection, and so
    /// does a root that cannot serve; a refusal changes nothing.
    pub fn init(&mut self, version: u32, root: Option<Vec<u8>>) -> (r: Result<Version, StatusCode>)
        ensures
            final(self)@ == old(self)@.after_init(version, option_bytes(root)),
            match r {
                Ok(v) => old(self)@.init_answer(option_bytes(root)) == Ok::<u32, StatusCode>(
                    v.version,
                ) && v.extensions@.len() == 0,
                Err(e) => old(self)@.init_answer(option_bytes(root)) == Err::<u32, StatusCode>(e),
            },
    {
        if self.version.is_some() {
            return Err(StatusCode::ConnectionLost);
        }
        let bytes = match root {
            None => { return Err(StatusCode::ConnectionLost); },
            Some(b) => b,
        };
        if bytes.len() == 0 || bytes[0] != SEPARATOR {
            return Err(StatusCode::ConnectionLost);
        }
        let segs = split_segments(bytes.as_slice());
        if any_parent_dir(&segs) {
            return Err(StatusCode::ConnectionLost);
        }
        proof {
            lemma_segments_normal(bytes@);
        }
        self.server_root_dir = segs;
        self.version = Some(version);
        Ok(Version { version: protocol_version(), extensions: Vec::new() })
    }
}

impl Default for SftpSession {
    fn default() -> (s: SftpSession)
        ensures
            s@ == SessionState::fresh(),
    {
        SftpSession::new()
    }
}

impl FileHandler for SftpSession {
    open spec fn guard_ready(&self) -> bool {
        self@.ready()
    }

    open spec fn guard_root(&self) -> Seq<Seq<u8>> {
        self@.root
    }

    fn candidate_path(&self, path: &[u8]) -> (c: Vec<u8>) {
        candidate(&self.server_root_dir, path)
    }

    fn complete_path(&self, canonical: Option<Vec<u8>>) -> (r: Result<ResolvedPath, GuardError>) {
        confine(self.version.is_some(), &self.server_root_dir, canonical)
    }

    fn remove_prefix_str(&self, path: &[u8], prefix: &[u8]) -> (r: Result<Vec<u8>, GuardError>) {
        strip_prefix(path, prefix)
    }
}

impl SftpSession {
    /// Names the directory to make canonical for an entry that the client's
    /// `path` names and that need not exist.
    pub fn parent_candidate_path(&self, path: &[u8]) -> (c: Vec<u8>)
        ensures
            c@ == crate::guard::parent_candidate_of(self@.root, path@),
    {
        parent_candidate(&self.server_root_dir, path)
    }

    /// Names the directory to make canonical for the file that a handle
    /// names, for the case that the file is gone.
    pub fn handle_parent(handle: &[u8]) -> (c: Vec<u8>)
        ensures
            c@ == crate::guard::parent_candidate_of(Seq::<Seq<u8>>::empty(), handle@),
    {
        let none: Vec<Vec<u8>> = Vec::new();
        proof {
            assert(views(none@) =~= Seq::<Seq<u8>>::empty());
        }
        parent_candidate(&none, handle)
    }

    /// Judges an entry that `path` names and that need not exist, from the
    /// file system's answer `parent` for its directory.
    pub fn complete_new_path(&self, path: &[u8], parent: Option<Vec<u8>>) -> (r: Result<
        ResolvedPath,
        GuardError,
    >)
        ensures
            match r {
                Ok(p) => self@.resolve_new(path@, option_bytes(parent)) == Ok::<
                    Seq<Seq<u8>>,
                    GuardError,
                >(p@) && p.root() == self@.root,
                Err(e) => self@.resolve_new(path@, option_bytes(parent)) == Err::<
                    Seq<Seq<u8>>,
                    GuardError,
                >(e),
            },
    {
        confine_new(self.version.is_some(), &self.server_root_dir, path, parent)
    }

    /// Finds the path to act on for an entry that may be created.
    fn locate(
        &self,
        path: &[u8],
        target: Option<Vec<u8>>,
        parent: Option<Vec<u8>>,
        may_create: bool,
    ) -> (r: Result<(ResolvedPath, bool), GuardError>)
        ensures
            match r {
                Ok((p, fresh)) => self@.resolve_or_create(
                    path@,
                    option_bytes(target),
                    option_bytes(parent),
                    may_create,
                ) == Ok::<(Seq<Seq<u8>>, bool), GuardError>((p@, fresh)) && p.root()
                    == self@.root,
                Err(e) => self@.resolve_or_create(
                    path@,
                    option_bytes(target),
                    option_bytes(parent),
                    may_create,
                ) == Err::<(Seq<Seq<u8>>, bool), GuardError>(e),
            },
    {
        match self.complete_path(target) {
            Ok(p) => Ok((p, false)),
            Err(e) => {
                let missing = match e {
                    GuardError::NotFound => true,
                    _ => false,
                };
                if missing && may_create {
                    match self.complete_new_path(path, parent) {
                        Ok(p) => Ok((p, true)),
                        Err(e2) => Err(e2),
                    }
                } else {
                    Err(e)
                }
            },
        }
    }

    /// Decides an open request for the client's `filename`. `target` is the
    /// file system's canonical answer for `candidate_path(filename)`, and
    /// `parent` the one for `parent_candidate_path(filename)`. A file that
    /// exists is opened with the access asked for; one that does not is
    /// created exclusively where the flags ask for creation. Whatever the
    /// guard turns down is answered with a denial.
    pub fn open(
        &self,
        filename: &[u8],
        pflags: u32,
        target: Option<Vec<u8>>,
        parent: Option<Vec<u8>>,
    ) -> (r: Result<StorageAction, StatusCode>)
        ensures
            decided(
                r,
                self@.open_plan(filename@, pflags, option_bytes(target), option_bytes(parent)),
                self@.root,
            ),
    {
        let may_create = flags_contain(pflags, OPEN_CREATE);
        match self.locate(filename, target, parent, may_create) {
            Ok((path, fresh)) => Ok(
                StorageAction::Open {
                    path,
                    read: flags_contain(pflags, OPEN_READ),
                    write: flags_contain(pflags, OPEN_WRITE),
                    create_new: fresh,
                },
            ),
            Err(_) => Err(StatusCode::PermissionDenied),
        }
    }

    /// Answers an open request once the storage has acted: the path itself
    /// is handed out as the handle, and a failure is a denial.
    pub fn open_reply(id: u32, path: &ResolvedPath, opened: bool) -> (r: Result<Handle, StatusCode>)
        ensures
            opened == r.is_ok(),
            r.is_ok() ==> r.unwrap().id == id && r.unwrap().handle@ == rendered(path@),
            r.is_err() ==> r.unwrap_err() == StatusCode::PermissionDenied,
    {
        if opened {
            Ok(Handle { id, handle: path.to_bytes() })
        } else {
            Err(StatusCode::PermissionDenied)
        }
    }

    /// Answers a close request: handles hold nothing, so it always succeeds
    /// and changes nothing.
    pub fn close(&self, id: u32, handle: &[u8]) -> (r: Result<Status, StatusCode>)
        ensures
            answered(r, id, StatusCode::Success),
    {
        answer(id, StatusCode::Success)
    }

    /// Decides a read request. `target` is the file system's canonical
    /// answer for the handle itself.
    pub fn read(&self, target: Option<Vec<u8>>, offset: u64, len: u32) -> (r: Result<
        StorageAction,
        StatusCode,
    >)
        ensures
            decided(r, self@.read_plan(option_bytes(target), offset, len), self@.root),
    {
        match self.complete_path(target) {
            Ok(path) => Ok(StorageAction::Read { path, offset, len }),
            Err(_) => Err(StatusCode::NoSuchFile),
        }
    }

    /// Decides a write request. `target` is the file system's canonical
    /// answer for the handle itself, and `parent` the one for
    /// `handle_parent(handle)`; the file is created, exclusively, where it
    /// is gone.
    pub fn write(
        &self,
        handle: &[u8],
        offset: u64,
        data: Vec<u8>,
        target: Option<Vec<u8>>,
        parent: Option<Vec<u8>>,
    ) -> (r: Result<StorageAction, StatusCode>)
        ensures
            decided(
                r,
                self@.write_plan(
                    handle@,
                    offset,
                    data@,
                    option_bytes(target),
                    option_bytes(parent),
                ),
                self@.root,
            ),
    {
        match self.locate(handle, target, parent, true) {
            Ok((path, fresh)) => Ok(
                StorageAction::Write { path, offset, data, create_new: fresh },
            ),
            Err(_) => Err(StatusCode::PermissionDenied),
        }
    }

    /// Opens a directory for listing: the client's path is the handle, and
    /// its listing can be delivered anew.
    pub fn opendir(&mut self, id: u32, path: Vec<u8>) -> (r: Result<Handle, StatusCode>)
        ensures
            final(self)@ == old(self)@.after_opendir(path@),
            r.is_ok(),
            r.unwrap().id == id,
            r.unwrap().handle@ == path@,
    {
        proof {
            use_type_invariant(&*self);
        }
        self.exhausted = lowered(&self.exhausted, path.as_slice());
        Ok(Handle { id, handle: path })
    }

    /// Decides a listing request. A listing that was delivered is not
    /// delivered again: an exhausted handle ends in the end-of-listing
    /// signal before anything is resolved, so also where its directory is
    /// gone. `canonical` is the file system's answer for
    /// `candidate_path(handle)`; it is looked at neither for an exhausted
    /// handle nor for the sentinel that stands for the sandbox root.
    pub fn readdir(&self, handle: &[u8], canonical: Option<Vec<u8>>) -> (r: Result<
        StorageAction,
        StatusCode,
    >)
        ensures
            decided(r, self@.readdir_plan(handle@, option_bytes(canonical)), self@.root),
    {
        if holds(&self.exhausted, handle) {
            return Err(StatusCode::Eof);
        }
        let resolved = if handle.len() == 1 && handle[0] == SEPARATOR {
            proof {
                assert(handle@ =~= root_sentinel());
                use_type_invariant(self);
            }
            if self.version.is_some() {
                Ok(ResolvedPath::of_root(&self.server_root_dir))
            } else {
                Err(GuardError::PermissionDenied)
            }
        } else {
            proof {
                if handle@ == root_sentinel() {
                    assert(handle@.len() == 1 && handle@[0] == SEPARATOR);
                }
            }
            self.complete_path(canonical)
        };
        match resolved {
            Err(_) => Err(StatusCode::NoSuchFile),
            Ok(path) => Ok(StorageAction::List { path }),
        }
    }

    /// Answers a listing request once the storage has listed: all entries
    /// in one batch, after which the handle is exhausted. An error leaves
    /// the handle as it was.
    pub fn readdir_reply(&mut self, id: u32, handle: &[u8], listing: &Listing) -> (r: Result<
        Name,
        StatusCode,
    >)
        ensures
            final(self)@ == old(self)@.after_readdir(handle@, *listing),
            match r {
                Ok(name) => name.id == id && old(self)@.readdir_answer(handle@, *listing) == Ok::<
                    Seq<FileView>,
                    StatusCode,
                >(file_views(name.files@)),
                Err(e) => old(self)@.readdir_answer(handle@, *listing) == Err::<
                    Seq<FileView>,
                    StatusCode,
                >(e),
            },
    {
        if holds(&self.exhausted, handle) {
            return Err(StatusCode::Eof);
        }
        match list_files(listing) {
            Err(e) => Err(e),
            Ok(files) => {
                proof {
                    use_type_invariant(&*self);
                }
                self.exhausted = raised(&self.exhausted, handle);
                Ok(Name { id, files })
            },
        }
    }

    /// Decides a request to remove a file. `target` is the file system's
    /// canonical answer for `candidate_path(filename)`.
    pub fn remove(&self, target: Option<Vec<u8>>) -> (r: Result<StorageAction, StatusCode>)
        ensures
            decided(r, self@.remove_plan(option_bytes(target)), self@.root),
    {
        match self.complete_path(target) {
            Ok(path) => Ok(StorageAction::RemoveFile { path }),
            Err(_) => Err(StatusCode::PermissionDenied),
        }
    }

    /// Decides a request to create a directory. `parent` is the file
    /// system's canonical answer for `parent_candidate_path(path)`.
    pub fn mkdir(&self, path: &[u8], parent: Option<Vec<u8>>) -> (r: Result<
        StorageAction,
        StatusCode,
    >)
        ensures
            decided(r, self@.mkdir_plan(path@, option_bytes(parent)), self@.root),
    {
        match self.complete_new_path(path, parent) {
            Ok(path) => Ok(StorageAction::CreateDir { path }),
            Err(_) => Err(StatusCode::PermissionDenied),
        }
    }

    /// Decides a request to remove a directory. `target` is the file
    /// system's canonical answer for `candidate_path(path)`. Before the
    /// storage removes anything it tells whether the path is a directory,
    /// and `rmdir_step` decides whether the removal goes on.
    pub fn rmdir(&self, target: Option<Vec<u8>>) -> (r: Result<StorageAction, StatusCode>)
        ensures
            decided(r, self@.rmdir_plan(option_bytes(target)), self@.root),
    {
        match self.complete_path(target) {
            Ok(path) => Ok(StorageAction::RemoveDir { path }),
            Err(_) => Err(StatusCode::PermissionDenied),
        }
    }

    /// Answers a request for the real path of `path`. `target` is the file
    /// system's canonical answer for `candidate_path(path)`. The answer
    /// never discloses where the sandbox lies: what the guard accepts is
    /// reported as the root, with no attributes.
    pub fn realpath(&self, id: u32, target: Option<Vec<u8>>) -> (r: Result<Name, StatusCode>)
        ensures
            r.is_ok() == self@.resolve(option_bytes(target)).is_ok(),
            r.is_ok() ==> r.unwrap().id == id && file_views(r.unwrap().files@) == seq![
                file_entry("/"@, no_attributes()),
            ],
            r.is_err() ==> r.unwrap_err() == StatusCode::NoSuchFile,
    {
        match self.complete_path(target) {
            Err(_) => Err(StatusCode::NoSuchFile),
            Ok(_) => {
                let file = new_file("/".to_string(), default_attributes());
                let mut files: Vec<crate::protocol::File> = Vec::new();
                files.push(file);
                proof {
                    assert(file_views(files@) =~= seq![file_entry("/"@, no_attributes())]);
                }
                Ok(Name { id, files })
            },
        }
    }
}

/// What a read request is answered: the bytes that were read, `len` of
/// them at most; fewer than were asked for is no error.
pub open spec fn read_answer(len: u32, outcome: ReadOutcome) -> Result<Seq<u8>, StatusCode> {
    match outcome {
        ReadOutcome::OpenFailed => Err(StatusCode::NoSuchFile),
        ReadOutcome::Failed => Err(StatusCode::Failure),
        ReadOutcome::Bytes(b) => if b@.len() <= len {
            Ok(b@)
        } else {
            Ok(b@.subrange(0, len as int))
        },
    }
}

/// The code that a write request is answered with.
pub open spec fn write_answer(outcome: WriteOutcome) -> StatusCode {
    match outcome {
        WriteOutcome::OpenFailed => StatusCode::PermissionDenied,
        WriteOutcome::Failed => StatusCode::Failure,
        WriteOutcome::Written => StatusCode::Success,
    }
}

/// The code that a request to remove a file, to create a directory or to
/// remove one is answered with: any failure of the storage is a denial.
pub open spec fn done_or_denied(done: bool) -> StatusCode {
    if done {
        StatusCode::Success
    } else {
        StatusCode::PermissionDenied
    }
}

/// Whether the removal of a directory goes on, once it is known whether
/// the path is a directory: what is none cannot be removed by this request.
pub open spec fn rmdir_go(is_dir: bool) -> Result<(), StatusCode> {
    if is_dir {
        Ok(())
    } else {
        Err(StatusCode::OpUnsupported)
    }
}

impl SftpSession {
    /// Answers a read request once the storage has acted.
    pub fn read_reply(id: u32, len: u32, outcome: ReadOutcome) -> (r: Result<Data, StatusCode>)
        ensures
            match r {
                Ok(d) => d.id == id && read_answer(len, outcome) == Ok::<Seq<u8>, StatusCode>(
                    d.data@,
                ),
                Err(e) => read_answer(len, outcome) == Err::<Seq<u8>, StatusCode>(e),
            },
    {
        match outcome {
            ReadOutcome::OpenFailed => Err(StatusCode::NoSuchFile),
            ReadOutcome::Failed => Err(StatusCode::Failure),
            ReadOutcome::Bytes(b) => {
                if b.len() <= len as usize {
                    Ok(Data { id, data: b })
                } else {
                    let mut data: Vec<u8> = Vec::new();
                    let mut i: usize = 0;
                    while i < len as usize
                        invariant
                            0 <= i <= len as usize,
                            len < b.len(),
                            data@ == b@.subrange(0, i as int),
                        decreases len as usize - i,
                    {
                        data.push(b[i]);
                        proof {
                            assert(data@ =~= b@.subrange(0, i + 1));
                        }
                        i += 1;
                    }
                    Ok(Data { id, data })
                }
            },
        }
    }

    /// Answers a write request once the storage has acted.
    pub fn write_reply(id: u32, outcome: WriteOutcome) -> (r: Result<Status, StatusCode>)
        ensures
            answered(r, id, write_answer(outcome)),
    {
        match outcome {
            WriteOutcome::OpenFailed => answer(id, StatusCode::PermissionDenied),
            WriteOutcome::Failed => answer(id, StatusCode::Failure),
            WriteOutcome::Written => answer(id, StatusCode::Success),
        }
    }

    /// Answers a request to remove a file once the storage has acted.
    pub fn remove_reply(id: u32, removed: bool) -> (r: Result<Status, StatusCode>)
        ensures
            answered(r, id, done_or_denied(removed)),
    {
        if removed {
            answer(id, StatusCode::Success)
        } else {
            answer(id, StatusCode::PermissionDenied)
        }
    }

    /// Answers a request to create a directory once the storage has acted.
    pub fn mkdir_reply(id: u32, created: bool) -> (r: Result<Status, StatusCode>)
        ensures
            answered(r, id, done_or_denied(created)),
    {
        if created {
            answer(id, StatusCode::Success)
        } else {
            answer(id, StatusCode::PermissionDenied)
        }
    }

    /// Decides, between the two calls of the storage, whether the removal of
    /// a directory goes on: it does where the path is a directory, and ends
    /// with the answer that the operation is not supported where it is not.
    pub fn rmdir_step(is_dir: bool) -> (go: Result<(), StatusCode>)
        ensures
            go == rmdir_go(is_dir),
    {
        if is_dir {
            Ok(())
        } else {
            Err(StatusCode::OpUnsupported)
        }
    }

    /// Answers a request to remove a directory once the storage has acted:
    /// a directory that could not be removed is a denial.
    pub fn rmdir_reply(id: u32, removed: bool) -> (r: Result<Status, StatusCode>)
        ensures
            answered(r, id, done_or_denied(removed)),
    {
        if removed {
            answer(id, StatusCode::Success)
        } else {
            answer(id, StatusCode::PermissionDenied)
        }
    }
}

} // verus!
