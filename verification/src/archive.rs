//! Reading the commit that a published source archive was built from.
//!
//! A registry archive is a gzip-compressed tar file. Among its entries stands
//! a small JSON file that the packaging tool wrote, and in it the commit under
//! `git.sha1`. The archive is read as a stream: entries are looked at in
//! archive order and nothing behind the wanted file is touched.
use vstd::prelude::*;
use crate::json::{Json, json_contents, json_member, json_text};

verus! {

/// The name of the file that records where a package was built from.
pub open spec fn metadata_file() -> Seq<char> {
    ".cargo_vcs_info.json"@
}

/// What one entry of an archive shows to a reader that stands in front of it.
pub struct Member {
    /// Whether the path in the entry's header can be read as a path.
    pub path_readable: bool,
    /// The last component of that path, where it has one and it is Unicode.
    pub file_name: Option<Seq<char>>,
    /// The entry's content as one JSON document, where it is one.
    pub document: Option<Json>,
}

/// What a walk over an archive meets: the entries up to the end of the
/// archive or up to the place where it cannot be read any further.
pub struct Listing {
    pub members: Seq<Member>,
    /// The walk ends in a read error rather than at the end of the archive.
    pub damaged: bool,
}

impl Listing {
    /// The listing that is left when the first member has been passed.
    pub open spec fn rest(self) -> Listing {
        Listing { members: self.members.drop_first(), damaged: self.damaged }
    }
}

/// Why an archive gave no answer.
#[derive(Clone, Copy, Debug, PartialEq, Eq, Structural)]
pub enum ArchiveFault {
    /// The archive could not be decompressed or walked up to the wanted file.
    Unreadable,
    /// The wanted file is there and is no JSON document.
    Malformed,
}

/// The failure of an inspection, with the error that the reader reported.
#[derive(Debug)]
pub enum ArchiveError {
    /// Decompressing or walking the archive failed.
    Read(std::io::Error),
    /// The metadata file could not be read as JSON.
    Metadata(serde_json::Error),
}

impl ArchiveError {
    /// The kind of this failure.
    pub open spec fn fault_spec(&self) -> ArchiveFault {
        match *self {
            ArchiveError::Read(_) => ArchiveFault::Unreadable,
            ArchiveError::Metadata(_) => ArchiveFault::Malformed,
        }
    }

    /// The kind of this failure.
    #[verifier::when_used_as_spec(fault_spec)]
    pub fn fault(&self) -> (fault: ArchiveFault)
        ensures
            fault == self.fault_spec(),
    {
        match self {
            ArchiveError::Read(_) => ArchiveFault::Unreadable,
            ArchiveError::Metadata(_) => ArchiveFault::Malformed,
        }
    }
}

/// The commit that a metadata document names: the text under `git.sha1`.
pub open spec fn commit_hash(document: Json) -> Option<Seq<char>> {
    document.member("git"@).member("sha1"@).text()
}

/// The answer that a listing holds. The first member named like the metadata
/// file decides: its commit if it is a JSON document, `Malformed` if not.
/// Members behind it play no part. Without such a member the answer is
/// `None`, unless the walk broke off before the end.
pub open spec fn inspect(listing: Listing) -> Result<Option<Seq<char>>, ArchiveFault>
    decreases listing.members.len(),
{
    if listing.members.len() == 0 {
        if listing.damaged {
            Err(ArchiveFault::Unreadable)
        } else {
            Ok(None)
        }
    } else {
        let first = listing.members.first();
        if !first.path_readable {
            Err(ArchiveFault::Unreadable)
        } else if first.file_name == Some(metadata_file()) {
            match first.document {
                Some(document) => Ok(commit_hash(document)),
                None => Err(ArchiveFault::Malformed),
            }
        } else {
            inspect(listing.rest())
        }
    }
}

/// An inspection's result without the reader's own error values.
pub open spec fn inspection(outcome: Result<Option<String>, ArchiveError>) -> Result<
    Option<Seq<char>>,
    ArchiveFault,
> {
    match outcome {
        Ok(hash) => Ok(hash.deep_view()),
        Err(error) => Err(error.fault_spec()),
    }
}

/// `std::io::Error`, carried as it comes.
#[verifier::external_type_specification]
#[verifier::external_body]
pub struct ExIoError(std::io::Error);

/// A `tar::Archive` over a `flate2::read::GzDecoder` over a byte slice. It
/// is held behind a struct of the library's own, as are its iterator and its
/// entries: the verifier cannot take in a type whose parameter is bound by
/// `std::io::Read`.
#[verifier::external_body]
pub struct Archive<'a> {
    inner: tar::Archive<flate2::read::GzDecoder<&'a [u8]>>,
}

/// The `tar::Entries` iterator of an `Archive`.
#[verifier::external_body]
pub struct Entries<'a, 'b> {
    inner: tar::Entries<'b, flate2::read::GzDecoder<&'a [u8]>>,
}

/// One `tar::Entry` that an `Entries` iterator handed out.
#[verifier::external_body]
pub struct Entry<'a, 'b> {
    inner: tar::Entry<'b, flate2::read::GzDecoder<&'a [u8]>>,
}

/// What a walk over the gzip-compressed tar archive in `input` meets.
pub uninterp spec fn archive_listing(input: Seq<u8>) -> Listing;

/// What a walk over this archive meets, if one is started now.
pub uninterp spec fn archive_content(archive: Archive) -> Listing;

/// What an iterator over an archive's entries has still to yield.
pub uninterp spec fn entries_ahead(entries: Entries) -> Listing;

/// What an entry shows, as the iterator handed it out.
pub uninterp spec fn entry_member(entry: Entry) -> Member;

/// The iterator handed out `entry` last, so that the archive stands at the
/// entry's content.
pub uninterp spec fn stands_at(entries: Entries, entry: Entry) -> bool;

/// Calls `flate2::read::GzDecoder::new` on the bytes and `tar::Archive::new`
/// on the decoder. Neither fails or reads an entry; the archive that comes
/// back stands at the start of the bytes.
#[verifier::external_body]
pub(crate) fn open_archive<'a>(input: &'a [u8]) -> (archive: Archive<'a>)
    ensures
        archive_content(archive) == archive_listing(input@),
{
    Archive { inner: tar::Archive::new(flate2::read::GzDecoder::new(input)) }
}

/// Calls `tar::Archive::entries`. It fails only for an archive that was read
/// from before; a walk that cannot start is a walk that breaks off at once.
#[verifier::external_body]
pub(crate) fn archive_entries<'a, 'b>(archive: &'b mut Archive<'a>) -> (started: Result<
    Entries<'a, 'b>,
    std::io::Error,
>)
    ensures
        match started {
            Ok(entries) => entries_ahead(entries) == archive_content(*old(archive)),
            Err(_) => archive_content(*old(archive)) == (Listing {
                members: Seq::empty(),
                damaged: true,
            }),
        },
{
    Ok(Entries { inner: archive.inner.entries()? })
}

/// Calls `next` on a `tar::Entries`. It yields the entries in archive order,
/// each unread, passing over what is left of the entry before; after the last
/// one it yields `None`, or one error where the archive cannot be read
/// further, and `None` from then on.
#[verifier::external_body]
pub(crate) fn next_entry<'a, 'b>(entries: &mut Entries<'a, 'b>) -> (item: Option<
    Result<Entry<'a, 'b>, std::io::Error>,
>)
    ensures
        match item {
            Some(Ok(entry)) => {
                &&& entries_ahead(*old(entries)).members.len() > 0
                &&& entry_member(entry) == entries_ahead(*old(entries)).members.first()
                &&& entries_ahead(*final(entries)) == entries_ahead(*old(entries)).rest()
                &&& stands_at(*final(entries), entry)
            },
            Some(Err(_)) => {
                &&& entries_ahead(*old(entries)).members.len() == 0
                &&& entries_ahead(*old(entries)).damaged
                &&& entries_ahead(*final(entries)).members.len() == 0
                &&& !entries_ahead(*final(entries)).damaged
            },
            None => {
                &&& entries_ahead(*old(entries)).members.len() == 0
                &&& !entries_ahead(*old(entries)).damaged
                &&& entries_ahead(*final(entries)) == entries_ahead(*old(entries))
            },
        },
{
    match entries.inner.next() {
        Some(Ok(inner)) => Some(Ok(Entry { inner })),
        Some(Err(error)) => Some(Err(error)),
        None => None,
    }
}

/// Reads the path in the entry's header with `tar::Header::path` and takes
/// its last component with `Path::file_name`, as text where it is Unicode.
#[verifier::external_body]
pub(crate) fn entry_file_name(entry: &Entry) -> (name: Result<Option<String>, std::io::Error>)
    ensures
        name is Ok <==> entry_member(*entry).path_readable,
        name matches Ok(text) ==> text.deep_view() == entry_member(*entry).file_name,
{
    let path = entry.inner.header().path()?;
    Ok(path.file_name().and_then(|name| name.to_str()).map(|name| name.to_owned()))
}

/// Reads the entry with `serde_json::from_reader`, which succeeds where the
/// content is exactly one JSON document. The entry has to be the one that the
/// iterator stands at: the content of an earlier one is gone.
#[verifier::external_body]
pub(crate) fn entry_document(entries: &Entries, entry: Entry) -> (document: Result<
    serde_json::Value,
    serde_json::Error,
>)
    requires
        stands_at(*entries, entry),
    ensures
        match document {
            Ok(value) => entry_member(entry).document == Some(json_contents(value)),
            Err(_) => entry_member(entry).document is None,
        },
{
    serde_json::from_reader(entry.inner)
}

/// Reads the commit out of a metadata document.
pub fn commit_hash_of(document: &serde_json::Value) -> (hash: Option<String>)
    ensures
        hash.deep_view() == commit_hash(json_contents(*document)),
{
    json_text(json_member(json_member(document, "git"), "sha1"))
}

/// Finds the commit that the archive in `input` was built from.
///
/// The entries are visited in archive order up to the first one that is named
/// like the metadata file. That entry is read as JSON and the text under
/// `git.sha1` is returned, or `None` where there is no text. `None` is also
/// the answer of an archive without such an entry. An archive that cannot be
/// read up to that entry, or whose metadata file is no JSON, is an error.
pub fn extract_commit_hash(input: &[u8]) -> (outcome: Result<Option<String>, ArchiveError>)
    ensures
        inspection(outcome) == inspect(archive_listing(input@)),
{
    let mut archive = open_archive(input);
    let mut entries = match archive_entries(&mut archive) {
        Ok(entries) => entries,
        Err(error) => {
            return Err(ArchiveError::Read(error));
        },
    };
    loop
        invariant
            inspect(entries_ahead(entries)) == inspect(archive_listing(input@)),
        decreases entries_ahead(entries).members.len(),
    {
        let entry = match next_entry(&mut entries) {
            Some(Ok(entry)) => entry,
            Some(Err(error)) => {
                return Err(ArchiveError::Read(error));
            },
            None => {
                return Ok(None);
            },
        };
        let name = match entry_file_name(&entry) {
            Ok(name) => name,
            Err(error) => {
                return Err(ArchiveError::Read(error));
            },
        };
        if is_metadata_file(&name) {
            return match entry_document(&entries, entry) {
                Ok(document) => Ok(commit_hash_of(&document)),
                Err(error) => Err(ArchiveError::Metadata(error)),
            };
        }
    }
}

/// Tells whether a file name is that of the metadata file.
fn is_metadata_file(name: &Option<String>) -> (wanted: bool)
    ensures
        wanted == (name.deep_view() == Some(metadata_file())),
{
    match name {
        Some(text) => {
            let expected = ".cargo_vcs_info.json".to_owned();
            *text == expected
        },
        None => false,
    }
}

/// A member that the walk passes by: its path can be read and it is not named
/// like the metadata file.
pub open spec fn unrelated(member: Member) -> bool {
    member.path_readable && member.file_name != Some(metadata_file())
}

/// The metadata file decides wherever it stands: if the member at `position`
/// is the first one named like the metadata file and holds a JSON document,
/// the answer is that document's commit, whatever stands behind it and
/// whether or not the archive can be read to its end.
pub proof fn lemma_metadata_file_decides(listing: Listing, position: int, document: Json)
    requires
        0 <= position < listing.members.len(),
        forall|i: int| 0 <= i < position ==> unrelated(#[trigger] listing.members[i]),
        listing.members[position].path_readable,
        listing.members[position].file_name == Some(metadata_file()),
        listing.members[position].document == Some(document),
    ensures
        inspect(listing) == Ok::<Option<Seq<char>>, ArchiveFault>(commit_hash(document)),
    decreases position,
{
    if position > 0 {
        lemma_metadata_file_decides(listing.rest(), position - 1, document);
    }
}

/// An archive that can be read to its end and holds no file named like the
/// metadata file gives `None`, and no error.
pub proof fn lemma_without_metadata_file(listing: Listing)
    requires
        !listing.damaged,
        forall|i: int| 0 <= i < listing.members.len() ==> unrelated(#[trigger] listing.members[i]),
    ensures
        inspect(listing) == Ok::<Option<Seq<char>>, ArchiveFault>(None),
    decreases listing.members.len(),
{
    if listing.members.len() > 0 {
        lemma_without_metadata_file(listing.rest());
    }
}

/// A walk that breaks off before any file named like the metadata file was
/// met is an error.
pub proof fn lemma_damaged_before_metadata_file(listing: Listing)
    requires
        listing.damaged,
        forall|i: int| 0 <= i < listing.members.len() ==> unrelated(#[trigger] listing.members[i]),
    ensures
        inspect(listing) == Err::<Option<Seq<char>>, ArchiveFault>(ArchiveFault::Unreadable),
    decreases listing.members.len(),
{
    if listing.members.len() > 0 {
        lemma_damaged_before_metadata_file(listing.rest());
    }
}

/// A document of the shape `{"git": {"sha1": text}}` names `text` as its
/// commit, whatever else the two objects hold.
pub proof fn lemma_commit_hash_of_document(
    document: Map<Seq<char>, Json>,
    git: Map<Seq<char>, Json>,
    text: Seq<char>,
)
    requires
        document.contains_key("git"@),
        document["git"@] == Json::Object(git),
        git.contains_key("sha1"@),
        git["sha1"@] == Json::Text(text),
    ensures
        commit_hash(Json::Object(document)) == Some(text),
{
}

/// A missing field or one that is no text is no error: the document then
/// names no commit.
pub proof fn lemma_commit_hash_absent(document: Json)
    requires
        document.member("git"@).member("sha1"@) !is Text,
    ensures
        commit_hash(document) is None,
{
}

/// A metadata file whose `git.sha1` is missing or is no text makes the whole
/// archive name no commit, without an error.
pub proof fn lemma_metadata_file_without_commit(listing: Listing, position: int, document: Json)
    requires
        0 <= position < listing.members.len(),
        forall|i: int| 0 <= i < position ==> unrelated(#[trigger] listing.members[i]),
        listing.members[position].path_readable,
        listing.members[position].file_name == Some(metadata_file()),
        listing.members[position].document == Some(document),
        document.member("git"@).member("sha1"@) !is Text,
    ensures
        inspect(listing) == Ok::<Option<Seq<char>>, ArchiveFault>(None),
{
    lemma_metadata_file_decides(listing, position, document);
}

} // verus!
