//! The replies of the file-transfer protocol, as plain values.

use vstd::prelude::*;

verus! {

/// The flag of an open request that asks for read access.
pub const OPEN_READ: u32 = 0x01;

/// The flag of an open request that asks for write access.
pub const OPEN_WRITE: u32 = 0x02;

/// The flag of an open request that asks for the file to be created.
pub const OPEN_CREATE: u32 = 0x08;

/// The name under which every listed entry shows its owner.
pub open spec fn owner_label() -> Seq<char> {
    "SFTP-rustified"@
}

/// The acknowledgment of a version negotiation.
#[derive(Debug, PartialEq, Eq)]
pub struct Version {
    pub version: u32,
    pub extensions: Vec<(String, String)>,
}

/// A reply that hands out a handle.
#[derive(Debug, PartialEq, Eq)]
pub struct Handle {
    pub id: u32,
    pub handle: Vec<u8>,
}

/// A reply that carries bytes read from a file.
#[derive(Debug, PartialEq, Eq)]
pub struct Data {
    pub id: u32,
    pub data: Vec<u8>,
}

/// What is known of a file; a field is `None` where it is left out.
#[derive(Debug, PartialEq, Eq)]
pub struct FileAttributes {
    pub size: Option<u64>,
    pub uid: Option<u32>,
    pub user: Option<String>,
    pub gid: Option<u32>,
    pub group: Option<String>,
    pub permissions: Option<u32>,
    pub atime: Option<u32>,
    pub mtime: Option<u32>,
}

/// The attributes as values of specifications.
pub struct AttributesView {
    pub size: Option<u64>,
    pub uid: Option<u32>,
    pub user: Option<Seq<char>>,
    pub gid: Option<u32>,
    pub group: Option<Seq<char>>,
    pub permissions: Option<u32>,
    pub atime: Option<u32>,
    pub mtime: Option<u32>,
}

/// The characters of a name, if there is one.
pub open spec fn option_chars(name: Option<String>) -> Option<Seq<char>> {
    match name {
        None => None,
        Some(s) => Some(s@),
    }
}

impl View for FileAttributes {
    type V = AttributesView;

    open spec fn view(&self) -> AttributesView {
        AttributesView {
            size: self.size,
            uid: self.uid,
            user: option_chars(self.user),
            gid: self.gid,
            group: option_chars(self.group),
            permissions: self.permissions,
            atime: self.atime,
            mtime: self.mtime,
        }
    }
}

/// The attributes that leave every field out.
pub open spec fn no_attributes() -> AttributesView {
    AttributesView {
        size: None,
        uid: None,
        user: None,
        gid: None,
        group: None,
        permissions: None,
        atime: None,
        mtime: None,
    }
}

/// One entry of a name reply.
#[derive(Debug, PartialEq, Eq)]
pub struct File {
    pub filename: String,
    pub longname: String,
    pub attrs: FileAttributes,
}

/// An entry as values of specifications.
pub struct FileView {
    pub filename: Seq<char>,
    pub longname: Seq<char>,
    pub attrs: AttributesView,
}

impl View for File {
    type V = FileView;

    open spec fn view(&self) -> FileView {
        FileView { filename: self.filename@, longname: self.longname@, attrs: self.attrs@ }
    }
}

/// A reply that carries names.
#[derive(Debug, PartialEq, Eq)]
pub struct Name {
    pub id: u32,
    pub files: Vec<File>,
}

/// The entries held in `files`, each as values of specifications.
pub open spec fn file_views(files: Seq<File>) -> Seq<FileView> {
    files.map_values(|f: File| f@)
}

/// The listing line that the protocol library writes for an entry named
/// `filename` with the attributes `attrs`.
pub uninterp spec fn long_name_text(filename: Seq<char>, attrs: AttributesView) -> Seq<char>;

/// The entry that the protocol library makes of a name and its attributes.
pub open spec fn file_entry(filename: Seq<char>, attrs: AttributesView) -> FileView {
    FileView { filename, longname: long_name_text(filename, attrs), attrs }
}

/// Calls `from_bits_retain` and `contains` of `russh_sftp`'s `OpenFlags`:
/// whether every bit of `wanted` is set in `pflags`.
#[verifier::external_body]
pub(crate) fn flags_contain(pflags: u32, wanted: u32) -> (yes: bool)
    ensures
        yes == (pflags & wanted == wanted),
{
    let flags = russh_sftp::protocol::OpenFlags::from_bits_retain(pflags);
    flags.contains(russh_sftp::protocol::OpenFlags::from_bits_retain(wanted))
}

/// Calls `Version::new` of `russh_sftp` and hands out its version number,
/// which the library fixes at 3.
#[verifier::external_body]
pub(crate) fn protocol_version() -> (v: u32)
    ensures
        v == 3,
{
    russh_sftp::protocol::Version::new().version
}

/// Calls `FileAttributes::default` of `russh_sftp`, which leaves every
/// field out.
#[verifier::external_body]
pub(crate) fn default_attributes() -> (attrs: FileAttributes)
    ensures
        attrs@ == no_attributes(),
{
    let d = russh_sftp::protocol::FileAttributes::default();
    FileAttributes {
        size: d.size,
        uid: d.uid,
        user: d.user,
        gid: d.gid,
        group: d.group,
        permissions: d.permissions,
        atime: d.atime,
        mtime: d.mtime,
    }
}

/// Calls `File::new` of `russh_sftp`, which keeps the name and the
/// attributes and writes the listing line from them; that line is handed
/// out, under the name `long_name_text`.
#[verifier::external_body]
pub(crate) fn long_name(filename: &String, attrs: &FileAttributes) -> (text: String)
    ensures
        text@ == long_name_text(filename@, attrs@),
{
    let outside = russh_sftp::protocol::FileAttributes {
        size: attrs.size,
        uid: attrs.uid,
        user: attrs.user.clone(),
        gid: attrs.gid,
        group: attrs.group.clone(),
        permissions: attrs.permissions,
        atime: attrs.atime,
        mtime: attrs.mtime,
    };
    russh_sftp::protocol::File::new(filename.clone(), outside).longname
}

/// The entry for `filename` with the attributes `attrs`.
pub fn new_file(filename: String, attrs: FileAttributes) -> (file: File)
    ensures
        file@ == file_entry(filename@, attrs@),
{
    let longname = long_name(&filename, &attrs);
    File { filename, longname, attrs }
}

} // verus!
