//! The gzip-compressed tar archive that a state archive holds.

use std::io::Read;

use vstd::prelude::*;
use vstd::string::*;
use vstd::utf8::*;

verus! {

/// An entry of an archive: its name, its contents, its permission bits, its modification time,
/// its owner and its group.
pub type EntryView = (Seq<u8>, Seq<u8>, u32, u64, u64, u64);

/// A tar archive that is compressed while it is written.
#[verifier::external_body]
pub struct TarGzBuilder {
    inner: tar::Builder<flate2::write::GzEncoder<Vec<u8>>>,
}

/// The entries that were appended to a builder.
pub uninterp spec fn built_entries(
    builder: TarGzBuilder,
) -> Seq<(Seq<u8>, Seq<u8>, u32, u64, u64, u64)>;

/// The compression level that a builder was made with.
pub uninterp spec fn built_level(builder: TarGzBuilder) -> u32;

/// The bytes of the compressed archive with the given entries.
pub uninterp spec fn tar_gz(
    entries: Seq<(Seq<u8>, Seq<u8>, u32, u64, u64, u64)>,
    level: u32,
) -> Seq<u8>;

/// What reading a compressed archive gives: nothing where reading cannot start, and otherwise the
/// entries and how much of the limit is left. An entry is nothing where it cannot be read, and
/// otherwise its name and, of a regular file, its contents (nothing again where they cannot be
/// read).
pub uninterp spec fn tar_gz_listing(tgz: Seq<u8>, limit: u64) -> Option<
    (Seq<Option<(Seq<u8>, Option<Option<Seq<u8>>>)>>, u64),
>;

/// A name that the tar format holds as it stands: one path component without a NUL.
pub open spec fn is_tar_name(name: Seq<u8>) -> bool {
    &&& name.len() > 0
    &&& !name.contains(0)
    &&& !name.contains(0x2f)
    &&& name != seq![0x2eu8]
    &&& name != seq![0x2eu8, 0x2eu8]
}

/// The length of a header block of 512 bytes with contents of the given length behind it, filled
/// up to whole blocks.
pub open spec fn member_len(contents: nat) -> nat {
    512 + (contents + 511) / 512 * 512
}

/// The length of what comes before an entry whose name is too long for its header: the name and a
/// NUL, as the contents of a member of its own.
pub open spec fn long_name_len(name: nat) -> nat {
    if name > 100 {
        member_len(name + 1)
    } else {
        0
    }
}

/// How much of an archive there is to read before compression: its entries, and the first of the two
/// blocks behind the last one, which ends the archive.
pub open spec fn tar_len(entries: Seq<EntryView>) -> nat
    decreases entries.len(),
{
    if entries.len() == 0 {
        512
    } else {
        tar_len(entries.drop_last()) + long_name_len(entries.last().0.len()) + member_len(
            entries.last().1.len(),
        )
    }
}

/// What a reader finds of entries that were appended as regular files.
pub open spec fn as_listed(entries: Seq<EntryView>) -> Seq<
    Option<(Seq<u8>, Option<Option<Seq<u8>>>)>,
> {
    entries.map_values(|e: EntryView| Some((e.0, Some(Some(e.1)))))
}

/// A reader with the given limit finds exactly the given entries, as regular files, and does not
/// use the limit up.
pub open spec fn lists(tgz: Seq<u8>, limit: u64, entries: Seq<EntryView>) -> bool {
    match tar_gz_listing(tgz, limit) {
        Some((found, left)) => found == as_listed(entries) && left > 0,
        None => false,
    }
}

/// The tar format holds the name of every entry as it stands.
pub open spec fn has_tar_names(entries: Seq<EntryView>) -> bool {
    forall|i: int| 0 <= i < entries.len() ==> is_tar_name((#[trigger] entries[i]).0)
}

impl TarGzBuilder {
    /// `tar::Builder::new` on `flate2::write::GzEncoder::new`: an archive without entries, to be
    /// compressed at the given level.
    #[verifier::external_body]
    pub(crate) fn new(level: u32) -> (builder: Self)
        requires
            level <= 9,
        ensures
            built_entries(builder) == Seq::<EntryView>::empty(),
            built_level(builder) == level,
    {
        let gz = flate2::write::GzEncoder::new(Vec::new(), flate2::Compression::new(level));
        let mut inner = tar::Builder::new(gz);
        inner.mode(tar::HeaderMode::Deterministic);
        Self { inner }
    }

    /// `tar::Builder::append_data` with a GNU header for a regular file: the entry stands behind
    /// those before it. A name that is one path component without a NUL is accepted, however long
    /// it is; which others are is left unsaid. A name that is not accepted leaves the archive as it
    /// was.
    #[verifier::external_body]
    pub(crate) fn append(
        &mut self,
        name: &str,
        contents: &[u8],
        mode: u32,
        mtime: u64,
        owner: u64,
        group: u64,
    ) -> (done: Result<(), std::io::Error>)
        ensures
            is_tar_name(encode_utf8(name@)) ==> done is Ok,
            done is Ok ==> built_entries(*final(self)) == built_entries(*old(self)).push(
                (encode_utf8(name@), contents@, mode, mtime, owner, group),
            ),
            done is Err ==> built_entries(*final(self)) == built_entries(*old(self)),
            built_level(*final(self)) == built_level(*old(self)),
    {
        let mut header = tar::Header::new_gnu();
        header.set_size(contents.len() as u64);
        header.set_mode(mode);
        header.set_mtime(mtime);
        header.set_uid(owner);
        header.set_gid(group);
        header.set_entry_type(tar::EntryType::Regular);
        self.inner.append_data(&mut header, name, contents)
    }

    /// `tar::Builder::into_inner` and `GzEncoder::finish`, which write to memory and so succeed:
    /// the bytes, which the entries and the level decide. Where every name is one path component
    /// without a NUL and there is less to read of the archive than a reader's limit, the reader
    /// finds those entries and does not use the limit up: a name of more than 100 bytes is written
    /// before its entry, and read back from there. The bytes are named, not described.
    #[verifier::external_body]
    pub(crate) fn finish(self) -> (tgz: Result<Vec<u8>, std::io::Error>)
        ensures
            match tgz {
                Ok(t) => {
                    &&& t@ == tar_gz(built_entries(self), built_level(self))
                    &&& forall|limit: u64|
                        has_tar_names(built_entries(self)) && tar_len(built_entries(self)) < limit
                            ==> #[trigger] lists(t@, limit, built_entries(self))
                },
                Err(_) => false,
            },
    {
        self.inner.into_inner()?.finish()
    }
}

/// An entry that was read from an archive.
#[derive(Debug)]
pub enum ArchiveEntry {
    /// A regular file, with its contents or the error that reading them gave.
    File { path: Vec<u8>, contents: Result<Vec<u8>, std::io::Error> },
    /// Anything else: a directory, a link, a device.
    Other { path: Vec<u8> },
}

/// What an entry, or the error in its place, is in a listing.
pub open spec fn listed(entry: Result<ArchiveEntry, std::io::Error>) -> Option<
    (Seq<u8>, Option<Option<Seq<u8>>>),
> {
    match entry {
        Ok(ArchiveEntry::File { path, contents: Ok(c) }) => Some((path@, Some(Some(c@)))),
        Ok(ArchiveEntry::File { path, contents: Err(_) }) => Some((path@, Some(None))),
        Ok(ArchiveEntry::Other { path }) => Some((path@, None)),
        Err(_) => None,
    }
}

/// `tar::Archive::entries` on a `flate2::read::GzDecoder` that stops after `limit` bytes: the
/// entries, and how much of the limit is left after the last one. They are named, not described.
/// Nothing is said of what is inside an error.
#[verifier::external_body]
pub(crate) fn read_tar_gz(tgz: &[u8], limit: u64) -> (listing: Result<
    (Vec<Result<ArchiveEntry, std::io::Error>>, u64),
    std::io::Error,
>)
    ensures
        match listing {
            Ok((entries, left)) => tar_gz_listing(tgz@, limit) == Some(
                (entries@.map_values(|e: Result<ArchiveEntry, std::io::Error>| listed(e)), left),
            ),
            Err(_) => tar_gz_listing(tgz@, limit) is None,
        },
{
    let mut archive = tar::Archive::new(flate2::read::GzDecoder::new(tgz).take(limit));
    let read = |mut e: tar::Entry<'_, _>| {
        let path = e.path_bytes().into_owned();
        let mut c = Vec::new();
        match e.header().entry_type() {
            tar::EntryType::Regular => ArchiveEntry::File { path, contents: e.read_to_end(&mut c).map(|_| c) },
            _ => ArchiveEntry::Other { path },
        }
    };
    let entries = archive.entries()?.map(|e| e.map(read)).collect();
    Ok((entries, archive.into_inner().limit()))
}

} // verus!
