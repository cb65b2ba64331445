//! Detecting the releases that have no tag yet.
//!
//! The detection needs four things from outside: the tags of the repository,
//! the text of the changelog, the registry's listing of the crate and the
//! archives of single versions. It never fetches them itself. It says what it
//! needs next as a `Request`, takes the answer as a `Reply`, and decides from
//! its state and that answer how to go on.
use vstd::prelude::*;
use crate::archive::{
    ArchiveError,
    ArchiveFault,
    archive_listing,
    extract_commit_hash,
    inspect,
    inspection,
};
use crate::changelog::{ChangelogEntry, ReleaseNote, changelog_releases, parse_releases, unreleased};
use crate::chronology::{chronological, sort_by_creation};
use crate::timestamp::Timestamp;
use crate::version_resolution::{
    CrateVersion,
    PublishedRecord,
    PublishedVersion,
    RegistryError,
    RegistryVersion,
    crate_versions,
    find_version,
    position_of,
};

verus! {

/// One release that is to be tagged: where the tag goes and what the hosted
/// release says.
#[derive(Debug, PartialEq, Eq)]
pub struct VersionToTag {
    pub version: String,
    pub tagname: String,
    pub commit_hash: String,
    pub created_at: Timestamp,
    pub title: String,
    pub notes: String,
}

/// What a `VersionToTag` holds, as plain text.
pub struct TagRecord {
    pub version: Seq<char>,
    pub tagname: Seq<char>,
    pub commit_hash: Seq<char>,
    pub created_at: Timestamp,
    pub title: Seq<char>,
    pub notes: Seq<char>,
}

impl DeepView for VersionToTag {
    type V = TagRecord;

    open spec fn deep_view(&self) -> TagRecord {
        TagRecord {
            version: self.version@,
            tagname: self.tagname@,
            commit_hash: self.commit_hash@,
            created_at: self.created_at,
            title: self.title@,
            notes: self.notes@,
        }
    }
}

impl Clone for VersionToTag {
    fn clone(&self) -> (copy: VersionToTag)
        ensures
            copy == *self,
    {
        VersionToTag {
            version: self.version.clone(),
            tagname: self.tagname.clone(),
            commit_hash: self.commit_hash.clone(),
            created_at: self.created_at,
            title: self.title.clone(),
            notes: self.notes.clone(),
        }
    }
}

/// What to detect: the crate, its changelog, and how tags and titles are
/// formed.
#[derive(Debug, PartialEq, Eq)]
pub struct DetectMissingTags {
    pub crate_name: String,
    pub changelog_path: String,
    pub tag_prefix: String,
    pub title_prefix: Option<String>,
    /// List a release even where its tag exists already.
    pub include_existing: bool,
}

/// What a `DetectMissingTags` holds, as plain text.
pub struct Settings {
    pub crate_name: Seq<char>,
    pub changelog_path: Seq<char>,
    pub tag_prefix: Seq<char>,
    pub title_prefix: Option<Seq<char>>,
    pub include_existing: bool,
}

impl DeepView for DetectMissingTags {
    type V = Settings;

    open spec fn deep_view(&self) -> Settings {
        Settings {
            crate_name: self.crate_name@,
            changelog_path: self.changelog_path@,
            tag_prefix: self.tag_prefix@,
            title_prefix: self.title_prefix.deep_view(),
            include_existing: self.include_existing,
        }
    }
}

/// A release of the changelog that may need a tag, with the tag's name.
#[derive(Debug, PartialEq, Eq)]
pub struct Candidate {
    pub entry: ChangelogEntry,
    pub tagname: String,
}

/// What a `Candidate` holds, as plain text.
pub struct CandidateRecord {
    pub note: ReleaseNote,
    pub tagname: Seq<char>,
}

impl DeepView for Candidate {
    type V = CandidateRecord;

    open spec fn deep_view(&self) -> CandidateRecord {
        CandidateRecord { note: self.entry.deep_view(), tagname: self.tagname@ }
    }
}

impl Clone for Candidate {
    fn clone(&self) -> (copy: Candidate)
        ensures
            copy == *self,
    {
        Candidate { entry: self.entry.clone(), tagname: self.tagname.clone() }
    }
}

/// Why a release of the changelog got no record.
#[derive(Clone, Copy, Debug, PartialEq, Eq, Structural)]
pub enum SkipReason {
    /// The registry lists no version of that name.
    NotPublished,
    /// The version's archive names no commit.
    NoCommitHash,
}

/// A release that was passed over, and why.
#[derive(Debug, PartialEq, Eq)]
pub struct Skipped {
    pub version: String,
    pub reason: SkipReason,
}

/// What a `Skipped` holds, as plain text.
pub struct SkippedRecord {
    pub version: Seq<char>,
    pub reason: SkipReason,
}

impl DeepView for Skipped {
    type V = SkippedRecord;

    open spec fn deep_view(&self) -> SkippedRecord {
        SkippedRecord { version: self.version@, reason: self.reason }
    }
}

impl Clone for Skipped {
    fn clone(&self) -> (copy: Skipped)
        ensures
            copy == *self,
    {
        Skipped { version: self.version.clone(), reason: self.reason }
    }
}

/// The name of the tag for a version.
pub open spec fn tag_name(prefix: Seq<char>, version: Seq<char>) -> Seq<char> {
    prefix + version
}

/// The title of the hosted release: the changelog's title, behind the prefix
/// and one space where a prefix is set.
pub open spec fn release_title(prefix: Option<Seq<char>>, title: Seq<char>) -> Seq<char> {
    match prefix {
        Some(prefix) => prefix + seq![' '] + title,
        None => title,
    }
}

impl Settings {
    /// A release needs a look at the registry unless it is the collecting
    /// place for unreleased work or its tag is among `tags`.
    pub open spec fn needs_tag(self, tags: Seq<Seq<char>>, note: ReleaseNote) -> bool {
        note.version != unreleased() && !tags.contains(tag_name(self.tag_prefix, note.version))
    }

    /// The test `needs_tag` for a fixed set of tags.
    pub open spec fn selector(self, tags: Seq<Seq<char>>) -> spec_fn(ReleaseNote) -> bool {
        |note: ReleaseNote| self.needs_tag(tags, note)
    }

    /// A release with the name of its tag.
    pub open spec fn candidate(self, note: ReleaseNote) -> CandidateRecord {
        CandidateRecord { note, tagname: tag_name(self.tag_prefix, note.version) }
    }

    /// The releases that need a look at the registry, in the changelog's
    /// order.
    pub open spec fn candidates(self, tags: Seq<Seq<char>>, notes: Seq<ReleaseNote>) -> Seq<
        CandidateRecord,
    > {
        notes.filter(self.selector(tags)).map_values(|note: ReleaseNote| self.candidate(note))
    }

    /// The record of a candidate whose version the registry lists and whose
    /// archive names a commit.
    pub open spec fn record(
        self,
        candidate: CandidateRecord,
        version: RegistryVersion,
        commit_hash: Seq<char>,
    ) -> TagRecord {
        TagRecord {
            version: candidate.note.version,
            tagname: candidate.tagname,
            commit_hash,
            created_at: version.created_at,
            title: release_title(self.title_prefix, candidate.note.title),
            notes: candidate.note.notes,
        }
    }
}

/// Tells whether `tag` is among `tags`.
pub fn has_tag(tags: &Vec<String>, tag: &String) -> (present: bool)
    ensures
        present == tags.deep_view().contains(tag@),
{
    let mut i: usize = 0;
    while i < tags.len()
        invariant
            i <= tags.len(),
            forall|j: int| 0 <= j < i ==> tags.deep_view()[j] != tag@,
        decreases tags.len() - i,
    {
        if tags[i] == *tag {
            proof {
                assert(tags.deep_view()[i as int] == tag@);
            }
            return true;
        }
        i = i + 1;
    }
    false
}

impl DetectMissingTags {
    /// Forms the name of the tag for a version.
    pub fn tag_for(&self, version: &String) -> (tagname: String)
        ensures
            tagname@ == tag_name(self.tag_prefix@, version@),
    {
        let mut tagname = self.tag_prefix.clone();
        tagname.append(version.as_str());
        tagname
    }

    /// Forms the title of the hosted release from the changelog's title.
    pub fn title_for(&self, title: &String) -> (full: String)
        ensures
            full@ == release_title(self.title_prefix.deep_view(), title@),
    {
        match &self.title_prefix {
            Some(prefix) => {
                let mut full = prefix.clone();
                proof {
                    reveal_strlit(" ");
                }
                full.append(" ");
                full.append(title.as_str());
                full
            },
            None => title.clone(),
        }
    }

    /// Picks from the releases of a changelog those that need a look at the
    /// registry: all but the collecting place for unreleased work and those
    /// whose tag is among `tags`. The order of the changelog is kept.
    pub fn releases_to_check(&self, tags: &Vec<String>, entries: &Vec<ChangelogEntry>) -> (picked:
        Vec<Candidate>)
        ensures
            picked.deep_view() == self.deep_view().candidates(
                tags.deep_view(),
                entries.deep_view(),
            ),
    {
        let ghost settings = self.deep_view();
        let ghost notes = entries.deep_view();
        let ghost known = tags.deep_view();
        let mut picked: Vec<Candidate> = Vec::new();
        let mut i: usize = 0;
        while i < entries.len()
            invariant
                i <= entries.len(),
                settings == self.deep_view(),
                notes == entries.deep_view(),
                known == tags.deep_view(),
                picked.deep_view() == settings.candidates(known, notes.take(i as int)),
            decreases entries.len() - i,
        {
            let entry = &entries[i];
            let ghost before = picked.deep_view();
            proof {
                assert(notes.take(i + 1) =~= notes.take(i as int).push(entry.deep_view()));
                notes.take(i as int).lemma_filter_push(entry.deep_view(), settings.selector(known));
            }
            if !entry.is_unreleased() {
                let tagname = self.tag_for(&entry.version);
                if !has_tag(tags, &tagname) {
                    picked.push(Candidate { entry: entry.clone(), tagname });
                    proof {
                        assert(picked.deep_view() =~= before.push(
                            settings.candidate(entry.deep_view()),
                        ));
                    }
                }
            }
            i = i + 1;
        }
        proof {
            assert(notes.take(i as int) =~= notes);
        }
        picked
    }
}

/// What the detection waits for.
#[derive(Clone, Copy, Debug, PartialEq, Eq, Structural)]
pub enum Awaiting {
    Tags,
    Changelog,
    Versions,
    Archive,
}

/// What the detection needs next from outside.
#[derive(Debug, PartialEq, Eq)]
pub enum Request {
    /// The names of the tags that the repository has.
    ExistingTags,
    /// The text of the changelog at this path.
    Changelog(String),
    /// The registry's listing of the versions of this crate.
    CrateVersions(String),
    /// The bytes of the archive at this address.
    Archive(String),
}

/// What a `Request` holds, as plain text.
pub enum RequestRecord {
    ExistingTags,
    Changelog(Seq<char>),
    CrateVersions(Seq<char>),
    Archive(Seq<char>),
}

impl DeepView for Request {
    type V = RequestRecord;

    open spec fn deep_view(&self) -> RequestRecord {
        match *self {
            Request::ExistingTags => RequestRecord::ExistingTags,
            Request::Changelog(path) => RequestRecord::Changelog(path@),
            Request::CrateVersions(crate_name) => RequestRecord::CrateVersions(crate_name@),
            Request::Archive(url) => RequestRecord::Archive(url@),
        }
    }
}

/// The answer to a `Request`.
#[derive(Debug)]
pub enum Reply {
    ExistingTags(Vec<String>),
    Changelog(String),
    CrateVersions(Vec<PublishedVersion>),
    Archive(Vec<u8>),
}

/// What a `Reply` holds, as plain values.
pub enum ReplyRecord {
    ExistingTags(Seq<Seq<char>>),
    Changelog(Seq<char>),
    CrateVersions(Seq<PublishedRecord>),
    Archive(Seq<u8>),
}

impl DeepView for Reply {
    type V = ReplyRecord;

    open spec fn deep_view(&self) -> ReplyRecord {
        match *self {
            Reply::ExistingTags(tags) => ReplyRecord::ExistingTags(tags.deep_view()),
            Reply::Changelog(text) => ReplyRecord::Changelog(text@),
            Reply::CrateVersions(listing) => ReplyRecord::CrateVersions(listing.deep_view()),
            Reply::Archive(bytes) => ReplyRecord::Archive(bytes@),
        }
    }
}

/// A detection under way: what it waits for and what it has gathered.
#[derive(Debug)]
pub struct Detection {
    pub awaiting: Awaiting,
    /// The tags of the repository; none where existing tags do not count.
    pub tags: Vec<String>,
    /// The releases that need a look at the registry.
    pub pending: Vec<Candidate>,
    /// The versions that the registry lists.
    pub versions: Vec<CrateVersion>,
    /// How many of the pending releases are dealt with.
    pub next: usize,
    /// The records of the releases dealt with, in the changelog's order.
    pub found: Vec<VersionToTag>,
    /// The releases dealt with that got no record.
    pub skipped: Vec<Skipped>,
}

/// What a `Detection` holds, as plain values.
pub struct DetectionState {
    pub awaiting: Awaiting,
    pub tags: Seq<Seq<char>>,
    pub pending: Seq<CandidateRecord>,
    pub versions: Seq<RegistryVersion>,
    pub next: nat,
    pub found: Seq<TagRecord>,
    pub skipped: Seq<SkippedRecord>,
}

impl DeepView for Detection {
    type V = DetectionState;

    open spec fn deep_view(&self) -> DetectionState {
        DetectionState {
            awaiting: self.awaiting,
            tags: self.tags.deep_view(),
            pending: self.pending.deep_view(),
            versions: self.versions.deep_view(),
            next: self.next as nat,
            found: self.found.deep_view(),
            skipped: self.skipped.deep_view(),
        }
    }
}

/// What a finished detection hands over.
#[derive(Debug, PartialEq, Eq)]
pub struct Report {
    /// The releases to tag, the earliest published first.
    pub versions: Vec<VersionToTag>,
    /// The releases that were passed over, in the changelog's order.
    pub skipped: Vec<Skipped>,
}

/// What a `Report` holds, as plain values.
pub struct ReportRecord {
    pub versions: Seq<TagRecord>,
    pub skipped: Seq<SkippedRecord>,
}

impl DeepView for Report {
    type V = ReportRecord;

    open spec fn deep_view(&self) -> ReportRecord {
        ReportRecord { versions: self.versions.deep_view(), skipped: self.skipped.deep_view() }
    }
}

/// Where a detection stands after a step.
#[derive(Debug)]
pub enum Progress {
    /// It goes on once the request is answered.
    Pending(Detection, Request),
    /// It is done.
    Complete(Report),
}

/// What a `Progress` holds, as plain values.
pub enum ProgressRecord {
    Pending(DetectionState, RequestRecord),
    Complete(ReportRecord),
}

impl DeepView for Progress {
    type V = ProgressRecord;

    open spec fn deep_view(&self) -> ProgressRecord {
        match *self {
            Progress::Pending(state, request) => ProgressRecord::Pending(
                state.deep_view(),
                request.deep_view(),
            ),
            Progress::Complete(report) => ProgressRecord::Complete(report.deep_view()),
        }
    }
}

/// Why a detection ended without a report.
#[derive(Debug)]
pub enum DetectError {
    /// The reply does not answer what the detection waits for.
    UnexpectedReply,
    /// The registry's listing could not be used.
    Registry(RegistryError),
    /// An archive could not be read.
    Archive(ArchiveError),
}

/// A `DetectError` without the reader's own error values.
pub enum Failure {
    UnexpectedReply,
    DownloadPath(Seq<char>),
    Archive(ArchiveFault),
}

impl DetectError {
    pub open spec fn failure(self) -> Failure {
        match self {
            DetectError::UnexpectedReply => Failure::UnexpectedReply,
            DetectError::Registry(RegistryError::DownloadPath(path)) => Failure::DownloadPath(
                path@,
            ),
            DetectError::Archive(error) => Failure::Archive(error.fault_spec()),
        }
    }
}

/// The result of a step without the reader's own error values.
pub open spec fn step_view(result: Result<Progress, DetectError>) -> Result<
    ProgressRecord,
    Failure,
> {
    match result {
        Ok(progress) => Ok(progress.deep_view()),
        Err(error) => Err(error.failure()),
    }
}

impl DetectionState {
    /// The state in which nothing is gathered yet.
    pub open spec fn initial(awaiting: Awaiting) -> DetectionState {
        DetectionState {
            awaiting,
            tags: Seq::empty(),
            pending: Seq::empty(),
            versions: Seq::empty(),
            next: 0,
            found: Seq::empty(),
            skipped: Seq::empty(),
        }
    }

    /// The state after the release at `next` was passed over.
    pub open spec fn skip(self, reason: SkipReason) -> DetectionState {
        DetectionState {
            next: self.next + 1,
            skipped: self.skipped.push(
                SkippedRecord { version: self.pending[self.next as int].note.version, reason },
            ),
            ..self
        }
    }

    /// The state after the release at `next` got a record.
    pub open spec fn keep(self, record: TagRecord) -> DetectionState {
        DetectionState { next: self.next + 1, found: self.found.push(record), ..self }
    }

    /// Going on to the next release that the registry lists. The releases on
    /// the way that it does not list are passed over. Where one is listed its
    /// archive is asked for; where none is left the detection is done and the
    /// records are put in the order of their publication.
    pub open spec fn advance(self) -> ProgressRecord
        decreases self.pending.len() - self.next,
    {
        if self.next >= self.pending.len() {
            ProgressRecord::Complete(
                ReportRecord { versions: chronological(self.found), skipped: self.skipped },
            )
        } else {
            match position_of(self.versions, self.pending[self.next as int].note.version) {
                Some(place) => ProgressRecord::Pending(
                    DetectionState { awaiting: Awaiting::Archive, ..self },
                    RequestRecord::Archive(self.versions[place].dl_url),
                ),
                None => self.skip(SkipReason::NotPublished).advance(),
            }
        }
    }
}

impl Settings {
    /// The first step: the tags are asked for where existing tags count, and
    /// the changelog at once where they do not.
    pub open spec fn start(self) -> ProgressRecord {
        if self.include_existing {
            ProgressRecord::Pending(
                DetectionState::initial(Awaiting::Changelog),
                RequestRecord::Changelog(self.changelog_path),
            )
        } else {
            ProgressRecord::Pending(
                DetectionState::initial(Awaiting::Tags),
                RequestRecord::ExistingTags,
            )
        }
    }

    /// The step on the releases of the changelog: without a release that
    /// needs a look at the registry the detection is done, and the registry is
    /// never asked.
    pub open spec fn plan(self, state: DetectionState, notes: Seq<ReleaseNote>) -> Result<
        ProgressRecord,
        Failure,
    > {
        if state.awaiting != Awaiting::Changelog {
            Err(Failure::UnexpectedReply)
        } else {
            let pending = self.candidates(state.tags, notes);
            if pending.len() == 0 {
                Ok(
                    ProgressRecord::Complete(
                        ReportRecord { versions: Seq::empty(), skipped: Seq::empty() },
                    ),
                )
            } else {
                Ok(
                    ProgressRecord::Pending(
                        DetectionState {
                            awaiting: Awaiting::Versions,
                            pending,
                            next: 0,
                            found: Seq::empty(),
                            skipped: Seq::empty(),
                            ..state
                        },
                        RequestRecord::CrateVersions(self.crate_name),
                    ),
                )
            }
        }
    }

    /// The step on the versions of the registry.
    pub open spec fn survey(self, state: DetectionState, versions: Seq<RegistryVersion>) -> Result<
        ProgressRecord,
        Failure,
    > {
        if state.awaiting != Awaiting::Versions {
            Err(Failure::UnexpectedReply)
        } else {
            Ok(
                DetectionState {
                    awaiting: Awaiting::Archive,
                    versions,
                    next: 0,
                    found: Seq::empty(),
                    skipped: Seq::empty(),
                    ..state
                }.advance(),
            )
        }
    }

    /// The step on what the archive of the release at `next` gave: a commit
    /// makes a record, no commit passes the release over, and an archive
    /// that could not be read ends the detection.
    pub open spec fn resolve(
        self,
        state: DetectionState,
        outcome: Result<Option<Seq<char>>, ArchiveFault>,
    ) -> Result<ProgressRecord, Failure> {
        if state.awaiting != Awaiting::Archive || state.next >= state.pending.len() {
            Err(Failure::UnexpectedReply)
        } else {
            let candidate = state.pending[state.next as int];
            match position_of(state.versions, candidate.note.version) {
                None => Err(Failure::UnexpectedReply),
                Some(place) => match outcome {
                    Err(fault) => Err(Failure::Archive(fault)),
                    Ok(None) => Ok(state.skip(SkipReason::NoCommitHash).advance()),
                    Ok(Some(commit_hash)) => Ok(
                        state.keep(
                            self.record(candidate, state.versions[place], commit_hash),
                        ).advance(),
                    ),
                },
            }
        }
    }

    /// The step that a reply brings about.
    pub open spec fn step(self, state: DetectionState, reply: ReplyRecord) -> Result<
        ProgressRecord,
        Failure,
    > {
        match reply {
            ReplyRecord::ExistingTags(tags) => if state.awaiting == Awaiting::Tags {
                Ok(
                    ProgressRecord::Pending(
                        DetectionState { awaiting: Awaiting::Changelog, tags, ..state },
                        RequestRecord::Changelog(self.changelog_path),
                    ),
                )
            } else {
                Err(Failure::UnexpectedReply)
            },
            ReplyRecord::Changelog(text) => self.plan(state, changelog_releases(text)),
            ReplyRecord::CrateVersions(listing) => if state.awaiting != Awaiting::Versions {
                Err(Failure::UnexpectedReply)
            } else {
                match crate_versions(listing) {
                    Ok(versions) => self.survey(state, versions),
                    Err(path) => Err(Failure::DownloadPath(path)),
                }
            },
            ReplyRecord::Archive(bytes) => self.resolve(state, inspect(archive_listing(bytes))),
        }
    }
}

impl DetectionState {
    /// What holds of a state between two steps of a detection. The releases
    /// dealt with are those in front of `next`, and each of them has a record
    /// or is noted as passed over. Before the changelog is read no release is
    /// pending; before the registry has answered no version is known; and
    /// while an archive is awaited, it is that of the release at `next`,
    /// which the registry lists.
    pub open spec fn well_formed(self) -> bool {
        &&& self.next <= self.pending.len()
        &&& self.found.len() + self.skipped.len() == self.next
        &&& match self.awaiting {
            Awaiting::Tags => self.tags.len() == 0 && self.pending.len() == 0
                && self.versions.len() == 0,
            Awaiting::Changelog => self.pending.len() == 0 && self.versions.len() == 0,
            Awaiting::Versions => self.pending.len() > 0 && self.versions.len() == 0
                && self.next == 0,
            Awaiting::Archive => self.next < self.pending.len() && position_of(
                self.versions,
                self.pending[self.next as int].note.version,
            ) is Some,
        }
    }

    /// The request that a state waits to have answered.
    pub open spec fn awaits(self, request: RequestRecord) -> bool {
        match self.awaiting {
            Awaiting::Tags => request is ExistingTags,
            Awaiting::Changelog => request is Changelog,
            Awaiting::Versions => request is CrateVersions,
            Awaiting::Archive => position_of(
                self.versions,
                self.pending[self.next as int].note.version,
            ) matches Some(place) && request == RequestRecord::Archive(self.versions[place].dl_url),
        }
    }
}

impl ReplyRecord {
    /// The reply is of the kind that answers the request.
    pub open spec fn answers(self, request: RequestRecord) -> bool {
        match request {
            RequestRecord::ExistingTags => self is ExistingTags,
            RequestRecord::Changelog(_) => self is Changelog,
            RequestRecord::CrateVersions(_) => self is CrateVersions,
            RequestRecord::Archive(_) => self is Archive,
        }
    }
}

impl ProgressRecord {
    /// A detection that goes on is in a well-formed state and asks for what
    /// that state waits for.
    pub open spec fn well_formed(self) -> bool {
        self matches ProgressRecord::Pending(state, request) ==> state.well_formed()
            && state.awaits(request)
    }
}

/// Going on from a state whose releases in front of `next` are dealt with
/// leaves a detection well-formed.
pub proof fn lemma_advance_is_well_formed(state: DetectionState)
    requires
        state.next <= state.pending.len(),
        state.found.len() + state.skipped.len() == state.next,
    ensures
        state.advance().well_formed(),
    decreases state.pending.len() - state.next,
{
    if state.next < state.pending.len() && position_of(
        state.versions,
        state.pending[state.next as int].note.version,
    ) is None {
        lemma_advance_is_well_formed(state.skip(SkipReason::NotPublished));
    }
}

/// A detection starts well-formed, and a step on a well-formed state leaves
/// it well-formed. A reply of the kind that was asked for is never
/// unexpected.
pub proof fn lemma_steps_are_well_formed(
    settings: Settings,
    state: DetectionState,
    request: RequestRecord,
    reply: ReplyRecord,
)
    requires
        state.well_formed(),
        state.awaits(request),
        reply.answers(request),
    ensures
        settings.start().well_formed(),
        match settings.step(state, reply) {
            Ok(progress) => progress.well_formed(),
            Err(failure) => failure !is UnexpectedReply,
        },
{
    match reply {
        ReplyRecord::CrateVersions(listing) => {
            if let Ok(versions) = crate_versions(listing) {
                lemma_advance_is_well_formed(
                    DetectionState {
                        awaiting: Awaiting::Archive,
                        versions,
                        next: 0,
                        found: Seq::empty(),
                        skipped: Seq::empty(),
                        ..state
                    },
                );
            }
        },
        ReplyRecord::Archive(bytes) => {
            let candidate = state.pending[state.next as int];
            let place = position_of(state.versions, candidate.note.version)->Some_0;
            match inspect(archive_listing(bytes)) {
                Ok(Some(commit_hash)) => {
                    lemma_advance_is_well_formed(
                        state.keep(settings.record(candidate, state.versions[place], commit_hash)),
                    );
                },
                Ok(None) => {
                    lemma_advance_is_well_formed(state.skip(SkipReason::NoCommitHash));
                },
                Err(_) => {},
            }
        },
        _ => {},
    }
}

impl Detection {
    /// A detection that has gathered nothing yet.
    pub fn new(awaiting: Awaiting) -> (state: Detection)
        ensures
            state.deep_view() == DetectionState::initial(awaiting),
    {
        let state = Detection {
            awaiting,
            tags: Vec::new(),
            pending: Vec::new(),
            versions: Vec::new(),
            next: 0,
            found: Vec::new(),
            skipped: Vec::new(),
        };
        proof {
            assert(state.tags.deep_view() =~= Seq::empty());
            assert(state.pending.deep_view() =~= Seq::empty());
            assert(state.versions.deep_view() =~= Seq::empty());
            assert(state.found.deep_view() =~= Seq::empty());
            assert(state.skipped.deep_view() =~= Seq::empty());
        }
        state
    }

    /// Goes on to the next pending release that the registry lists and asks
    /// for its archive. The releases on the way that the registry does not
    /// list are passed over. Where none is left the detection is done.
    pub fn advance(self) -> (progress: Progress)
        ensures
            progress.deep_view() == self.deep_view().advance(),
    {
        let ghost start = self.deep_view();
        let mut state = self;
        loop
            invariant
                start == self.deep_view(),
                state.deep_view().advance() == start.advance(),
            decreases state.pending.len() - state.next,
        {
            if state.next >= state.pending.len() {
                let Detection { found, skipped, .. } = state;
                return Progress::Complete(Report { versions: sort_by_creation(found), skipped });
            }
            let version = &state.pending[state.next].entry.version;
            match find_version(&state.versions, version) {
                Some(place) => {
                    let url = state.versions[place].dl_url.clone();
                    state.awaiting = Awaiting::Archive;
                    return Progress::Pending(state, Request::Archive(url));
                },
                None => {
                    let ghost before = state.deep_view();
                    let passed = Skipped {
                        version: version.clone(),
                        reason: SkipReason::NotPublished,
                    };
                    state.skipped.push(passed);
                    state.next = state.next + 1;
                    proof {
                        assert(state.skipped.deep_view() =~= before.skip(
                            SkipReason::NotPublished,
                        ).skipped);
                    }
                },
            }
        }
    }
}

impl DetectMissingTags {
    /// Begins a detection: says what is needed first.
    pub fn start(&self) -> (progress: Progress)
        ensures
            progress.deep_view() == self.deep_view().start(),
    {
        if self.include_existing {
            Progress::Pending(
                Detection::new(Awaiting::Changelog),
                Request::Changelog(self.changelog_path.clone()),
            )
        } else {
            Progress::Pending(Detection::new(Awaiting::Tags), Request::ExistingTags)
        }
    }

    /// Takes the releases of the changelog and picks those that need a look
    /// at the registry. Where none does, the detection is done without the
    /// registry being asked.
    pub fn plan(&self, state: Detection, entries: &Vec<ChangelogEntry>) -> (result: Result<
        Progress,
        DetectError,
    >)
        ensures
            step_view(result) == self.deep_view().plan(state.deep_view(), entries.deep_view()),
    {
        if state.awaiting != Awaiting::Changelog {
            return Err(DetectError::UnexpectedReply);
        }
        let pending = self.releases_to_check(&state.tags, entries);
        if pending.len() == 0 {
            let report = Report { versions: Vec::new(), skipped: Vec::new() };
            proof {
                assert(report.versions.deep_view() =~= Seq::empty());
                assert(report.skipped.deep_view() =~= Seq::empty());
            }
            return Ok(Progress::Complete(report));
        }
        let Detection { tags, versions, .. } = state;
        let next = Detection {
            awaiting: Awaiting::Versions,
            tags,
            pending,
            versions,
            next: 0,
            found: Vec::new(),
            skipped: Vec::new(),
        };
        proof {
            assert(next.found.deep_view() =~= Seq::empty());
            assert(next.skipped.deep_view() =~= Seq::empty());
        }
        Ok(Progress::Pending(next, Request::CrateVersions(self.crate_name.clone())))
    }

    /// Takes the versions that the registry lists and goes on to the first
    /// pending release among them.
    pub fn survey(&self, state: Detection, versions: Vec<CrateVersion>) -> (result: Result<
        Progress,
        DetectError,
    >)
        ensures
            step_view(result) == self.deep_view().survey(state.deep_view(), versions.deep_view()),
    {
        if state.awaiting != Awaiting::Versions {
            return Err(DetectError::UnexpectedReply);
        }
        let Detection { tags, pending, .. } = state;
        let next = Detection {
            awaiting: Awaiting::Archive,
            tags,
            pending,
            versions,
            next: 0,
            found: Vec::new(),
            skipped: Vec::new(),
        };
        proof {
            assert(next.found.deep_view() =~= Seq::empty());
            assert(next.skipped.deep_view() =~= Seq::empty());
        }
        Ok(next.advance())
    }

    /// Takes what the archive of the release in hand gave. A commit makes a
    /// record of the release; no commit passes it over; an archive that
    /// could not be read ends the detection. Then the next release is in hand.
    pub fn resolve(
        &self,
        state: Detection,
        outcome: Result<Option<String>, ArchiveError>,
    ) -> (result: Result<Progress, DetectError>)
        ensures
            step_view(result) == self.deep_view().resolve(state.deep_view(), inspection(outcome)),
    {
        if state.awaiting != Awaiting::Archive || state.next >= state.pending.len() {
            return Err(DetectError::UnexpectedReply);
        }
        let ghost before = state.deep_view();
        let mut state = state;
        let candidate = &state.pending[state.next];
        let place = match find_version(&state.versions, &candidate.entry.version) {
            Some(place) => place,
            None => {
                return Err(DetectError::UnexpectedReply);
            },
        };
        match outcome {
            Err(error) => Err(DetectError::Archive(error)),
            Ok(None) => {
                let passed = Skipped {
                    version: candidate.entry.version.clone(),
                    reason: SkipReason::NoCommitHash,
                };
                state.skipped.push(passed);
                state.next = state.next + 1;
                proof {
                    assert(state.skipped.deep_view() =~= before.skip(
                        SkipReason::NoCommitHash,
                    ).skipped);
                }
                Ok(state.advance())
            },
            Ok(Some(commit_hash)) => {
                let record = VersionToTag {
                    version: candidate.entry.version.clone(),
                    tagname: candidate.tagname.clone(),
                    commit_hash,
                    created_at: state.versions[place].created_at,
                    title: self.title_for(&candidate.entry.title),
                    notes: candidate.entry.notes.clone(),
                };
                let ghost kept = record.deep_view();
                state.found.push(record);
                state.next = state.next + 1;
                proof {
                    assert(state.found.deep_view() =~= before.found.push(kept));
                }
                Ok(state.advance())
            },
        }
    }

    /// Takes the reply to the last request and says how the detection goes
    /// on: with another request, with the report, or with an error.
    ///
    /// The tags lead to the changelog. The changelog leads to the registry,
    /// or to an empty report where no release needs a look at it. The
    /// registry's listing and each archive lead to the archive of the next
    /// release that the registry lists, or to the report. A reply that the
    /// detection does not wait for is an error.
    pub fn run(&self, state: Detection, reply: Reply) -> (result: Result<Progress, DetectError>)
        ensures
            step_view(result) == self.deep_view().step(state.deep_view(), reply.deep_view()),
    {
        match reply {
            Reply::ExistingTags(tags) => {
                if state.awaiting != Awaiting::Tags {
                    return Err(DetectError::UnexpectedReply);
                }
                let Detection { pending, versions, next, found, skipped, .. } = state;
                Ok(
                    Progress::Pending(
                        Detection {
                            awaiting: Awaiting::Changelog,
                            tags,
                            pending,
                            versions,
                            next,
                            found,
                            skipped,
                        },
                        Request::Changelog(self.changelog_path.clone()),
                    ),
                )
            },
            Reply::Changelog(text) => {
                let entries = parse_releases(text.as_str());
                self.plan(state, &entries)
            },
            Reply::CrateVersions(listing) => {
                if state.awaiting != Awaiting::Versions {
                    return Err(DetectError::UnexpectedReply);
                }
                match CrateVersion::for_crate(&listing) {
                    Ok(versions) => self.survey(state, versions),
                    Err(error) => Err(DetectError::Registry(error)),
                }
            },
            Reply::Archive(bytes) => {
                if state.awaiting != Awaiting::Archive {
                    return Err(DetectError::UnexpectedReply);
                }
                let outcome = extract_commit_hash(bytes.as_slice());
                self.resolve(state, outcome)
            },
        }
    }
}

} // verus!
