//! What a session asks of the storage, and what the storage answers.

use crate::guard::ResolvedPath;
use crate::protocol::{
    file_entry, file_views, new_file, owner_label, AttributesView, File, FileAttributes, FileView,
};
use crate::status::StatusCode;
use vstd::prelude::*;

verus! {

/// An action on the storage. Its path has passed the guard.
#[derive(Debug)]
pub enum StorageAction {
    /// Open the file, creating it exclusively where `create_new` is set.
    Open { path: ResolvedPath, read: bool, write: bool, create_new: bool },
    /// Open the file for reading, seek to `offset`, read up to `len` bytes.
    Read { path: ResolvedPath, offset: u64, len: u32 },
    /// Open the file for writing, seek to `offset`, write all of `data`.
    /// Where `create_new` is set the file is created exclusively: the
    /// storage must fail where anything, a link that leads nowhere too,
    /// stands at the path.
    Write { path: ResolvedPath, offset: u64, data: Vec<u8>, create_new: bool },
    /// List the entries of the directory.
    List { path: ResolvedPath },
    /// Delete the file.
    RemoveFile { path: ResolvedPath },
    /// Create the directory, one level only.
    CreateDir { path: ResolvedPath },
    /// Remove the directory, once the session has been told whether the
    /// path is one and has let the removal go on.
    RemoveDir { path: ResolvedPath },
}

/// An action as values of specifications.
pub enum ActionView {
    Open { path: Seq<Seq<u8>>, read: bool, write: bool, create_new: bool },
    Read { path: Seq<Seq<u8>>, offset: u64, len: u32 },
    Write { path: Seq<Seq<u8>>, offset: u64, data: Seq<u8>, create_new: bool },
    List { path: Seq<Seq<u8>> },
    RemoveFile { path: Seq<Seq<u8>> },
    CreateDir { path: Seq<Seq<u8>> },
    RemoveDir { path: Seq<Seq<u8>> },
}

impl View for StorageAction {
    type V = ActionView;

    open spec fn view(&self) -> ActionView {
        match self {
            StorageAction::Open { path, read, write, create_new } => ActionView::Open {
                path: path@,
                read: *read,
                write: *write,
                create_new: *create_new,
            },
            StorageAction::Read { path, offset, len } => ActionView::Read {
                path: path@,
                offset: *offset,
                len: *len,
            },
            StorageAction::Write { path, offset, data, create_new } => ActionView::Write {
                path: path@,
                offset: *offset,
                data: data@,
                create_new: *create_new,
            },
            StorageAction::List { path } => ActionView::List { path: path@ },
            StorageAction::RemoveFile { path } => ActionView::RemoveFile { path: path@ },
            StorageAction::CreateDir { path } => ActionView::CreateDir { path: path@ },
            StorageAction::RemoveDir { path } => ActionView::RemoveDir { path: path@ },
        }
    }
}

impl StorageAction {
    /// The sandbox root within which the action's path was found to lie.
    pub open spec fn root(&self) -> Seq<Seq<u8>> {
        match self {
            StorageAction::Open { path, .. } => path.root(),
            StorageAction::Read { path, .. } => path.root(),
            StorageAction::Write { path, .. } => path.root(),
            StorageAction::List { path } => path.root(),
            StorageAction::RemoveFile { path } => path.root(),
            StorageAction::CreateDir { path } => path.root(),
            StorageAction::RemoveDir { path } => path.root(),
        }
    }

    /// The path that the action is to be performed on.
    pub fn path(&self) -> (p: &ResolvedPath)
        ensures
            p.root() == self.root(),
            p@ == self@.path(),
    {
        match self {
            StorageAction::Open { path, .. } => path,
            StorageAction::Read { path, .. } => path,
            StorageAction::Write { path, .. } => path,
            StorageAction::List { path } => path,
            StorageAction::RemoveFile { path } => path,
            StorageAction::CreateDir { path } => path,
            StorageAction::RemoveDir { path } => path,
        }
    }
}

impl ActionView {
    /// The segments of the path that the action is to be performed on.
    pub open spec fn path(self) -> Seq<Seq<u8>> {
        match self {
            ActionView::Open { path, .. } => path,
            ActionView::Read { path, .. } => path,
            ActionView::Write { path, .. } => path,
            ActionView::List { path } => path,
            ActionView::RemoveFile { path } => path,
            ActionView::CreateDir { path } => path,
            ActionView::RemoveDir { path } => path,
        }
    }
}

/// Whether the decision `r` is the one that `verdict` calls for, with a
/// path found within `root`.
pub open spec fn decided(
    r: Result<StorageAction, StatusCode>,
    verdict: Result<ActionView, StatusCode>,
    root: Seq<Seq<u8>>,
) -> bool {
    match r {
        Ok(a) => verdict == Ok::<ActionView, StatusCode>(a@) && a.root() == root,
        Err(e) => verdict == Err::<ActionView, StatusCode>(e),
    }
}

/// How reading from a file went.
#[derive(Debug)]
pub enum ReadOutcome {
    /// The file could not be opened.
    OpenFailed,
    /// Seeking or reading failed.
    Failed,
    /// These bytes were read.
    Bytes(Vec<u8>),
}

/// How writing to a file went.
#[derive(Clone, Copy, Debug, PartialEq, Eq, Structural)]
pub enum WriteOutcome {
    /// The file could not be opened.
    OpenFailed,
    /// Seeking or writing failed.
    Failed,
    /// All bytes were written.
    Written,
}

/// What the storage knows of one entry. Times are whole seconds since the
/// epoch, and `None` where the storage has no time or one before the
/// epoch.
#[derive(Clone, Copy, Debug, PartialEq, Eq, Structural)]
pub struct Metadata {
    pub len: u64,
    pub uid: u32,
    pub gid: u32,
    pub mode: u32,
    pub accessed: Option<u64>,
    pub modified: Option<u64>,
}

/// One entry as the storage listed it: the name is `None` where it is no
/// valid text, the metadata where they could not be had.
#[derive(Debug)]
pub struct RawEntry {
    pub name: Option<String>,
    pub metadata: Option<Metadata>,
}

/// What listing a directory gave: whether it could be opened, the entries
/// read, and whether reading came to the end without a failure.
#[derive(Debug)]
pub struct Listing {
    pub opened: bool,
    pub entries: Vec<RawEntry>,
    pub complete: bool,
}

/// The time `secs`, cut down to the 32 bits that the protocol carries; a
/// time that is not known is reported as the epoch.
pub open spec fn protocol_time(secs: Option<u64>) -> u32 {
    match secs {
        None => 0,
        Some(s) => (s % 0x1_0000_0000) as u32,
    }
}

/// The time `secs` as the protocol carries it.
pub fn to_protocol_time(secs: Option<u64>) -> (t: u32)
    ensures
        t == protocol_time(secs),
{
    match secs {
        None => 0,
        Some(s) => (s % 0x1_0000_0000) as u32,
    }
}

/// The attributes that are reported for an entry with the metadata `m`.
pub open spec fn attributes_of(m: Metadata) -> AttributesView {
    AttributesView {
        size: Some(m.len),
        uid: Some(m.uid),
        user: Some(owner_label()),
        gid: Some(m.gid),
        group: None,
        permissions: Some(m.mode),
        atime: Some(protocol_time(m.accessed)),
        mtime: Some(protocol_time(m.modified)),
    }
}

/// What becomes of one listed entry: a name that is no valid text cannot be
/// found, and missing metadata are a failure.
pub open spec fn entry_verdict(e: RawEntry) -> Result<FileView, StatusCode> {
    match e.name {
        None => Err(StatusCode::NoSuchFile),
        Some(n) => match e.metadata {
            None => Err(StatusCode::Failure),
            Some(m) => Ok(file_entry(n@, attributes_of(m))),
        },
    }
}

/// The error of the first of `entries` that has one.
pub open spec fn first_error(entries: Seq<RawEntry>) -> Option<StatusCode>
    decreases entries.len(),
{
    if entries.len() == 0 {
        None
    } else {
        match first_error(entries.drop_last()) {
            Some(e) => Some(e),
            None => match entry_verdict(entries.last()) {
                Err(e) => Some(e),
                Ok(_) => None,
            },
        }
    }
}

/// What is reported for `entries`, none of which has an error.
pub open spec fn reported(entries: Seq<RawEntry>) -> Seq<FileView> {
    entries.map_values(|e: RawEntry| entry_verdict(e).unwrap())
}

/// The entries that a listing reports, or the error that it ends in.
pub open spec fn listing_verdict(listing: Listing) -> Result<Seq<FileView>, StatusCode> {
    if !listing.opened {
        Err(StatusCode::NoSuchFile)
    } else {
        match first_error(listing.entries@) {
            Some(e) => Err(e),
            None => if listing.complete {
                Ok(reported(listing.entries@))
            } else {
                Err(StatusCode::Failure)
            },
        }
    }
}

/// The attributes that are reported for an entry with the metadata `m`.
pub fn attributes(m: Metadata) -> (attrs: FileAttributes)
    ensures
        attrs@ == attributes_of(m),
{
    FileAttributes {
        size: Some(m.len),
        uid: Some(m.uid),
        user: Some("SFTP-rustified".to_string()),
        gid: Some(m.gid),
        group: None,
        permissions: Some(m.mode),
        atime: Some(to_protocol_time(m.accessed)),
        mtime: Some(to_protocol_time(m.modified)),
    }
}

/// An error among the first `k` entries is the first error of them all, up
/// to any `n` entries.
pub proof fn lemma_first_error_stays(entries: Seq<RawEntry>, k: int, n: int)
    requires
        0 <= k <= n <= entries.len(),
        first_error(entries.subrange(0, k)).is_some(),
    ensures
        first_error(entries.subrange(0, n)) == first_error(entries.subrange(0, k)),
    decreases n - k,
{
    if k < n {
        lemma_first_error_stays(entries, k, n - 1);
        assert(entries.subrange(0, n).drop_last() =~= entries.subrange(0, n - 1));
    }
}

/// Turns what the storage listed into the entries of a reply, or into the
/// error of the first entry that has one.
pub fn list_files(listing: &Listing) -> (r: Result<Vec<File>, StatusCode>)
    ensures
        match r {
            Ok(files) => listing_verdict(*listing) == Ok::<Seq<FileView>, StatusCode>(
                file_views(files@),
            ),
            Err(e) => listing_verdict(*listing) == Err::<Seq<FileView>, StatusCode>(e),
        },
{
    if !listing.opened {
        return Err(StatusCode::NoSuchFile);
    }
    let mut files: Vec<File> = Vec::new();
    let mut i: usize = 0;
    let ghost entries = listing.entries@;
    proof {
        assert(file_views(files@) =~= reported(entries.subrange(0, 0)));
    }
    while i < listing.entries.len()
        invariant
            0 <= i <= listing.entries.len(),
            listing.opened,
            entries == listing.entries@,
            first_error(entries.subrange(0, i as int)).is_none(),
            file_views(files@) == reported(entries.subrange(0, i as int)),
        decreases listing.entries.len() - i,
    {
        let entry = &listing.entries[i];
        proof {
            assert(entries.subrange(0, i + 1).drop_last() =~= entries.subrange(0, i as int));
            assert(entries.subrange(0, i + 1).last() == *entry);
        }
        let name = match &entry.name {
            None => {
                proof {
                    lemma_first_error_stays(entries, i + 1, entries.len() as int);
                    assert(entries.subrange(0, entries.len() as int) =~= entries);
                }
                return Err(StatusCode::NoSuchFile);
            },
            Some(n) => n.clone(),
        };
        let meta = match entry.metadata {
            None => {
                proof {
                    lemma_first_error_stays(entries, i + 1, entries.len() as int);
                    assert(entries.subrange(0, entries.len() as int) =~= entries);
                }
                return Err(StatusCode::Failure);
            },
            Some(m) => m,
        };
        let file = new_file(name, attributes(meta));
        let ghost before = file_views(files@);
        files.push(file);
        proof {
            assert(file_views(files@) =~= before.push(file@));
            assert(reported(entries.subrange(0, i + 1)) =~= reported(
                entries.subrange(0, i as int),
            ).push(entry_verdict(*entry).unwrap()));
        }
        i += 1;
    }
    proof {
        assert(entries.subrange(0, i as int) =~= entries);
    }
    if !listing.complete {
        return Err(StatusCode::Failure);
    }
    Ok(files)
}

} // verus!
