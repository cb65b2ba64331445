//! What holds of every detection.
//!
//! Each statement here is about `detect`, the course of a whole detection in
//! a fixed world, and so about every run that answers the requests of a
//! detection truthfully: `lemma_drive_detects` shows that such a run takes
//! that course.
use vstd::prelude::*;
use crate::archive::ArchiveFault;
use crate::changelog::{ReleaseNote, unreleased};
use crate::chronology::{
    chronological,
    in_order,
    lemma_chronological_contains,
    lemma_chronological_in_order,
};
use crate::detect::{
    CandidateRecord,
    DetectionState,
    Failure,
    ReportRecord,
    RequestRecord,
    Settings,
    SkipReason,
    SkippedRecord,
    TagRecord,
    release_title,
    tag_name,
};
use crate::version_resolution::{RegistryVersion, crate_versions, lemma_position_of, position_of};
use crate::world::{Course, Ending, Finding, World, lemma_drive_detects};

verus! {

impl Settings {
    /// Some pending release from `next` on gives this record.
    pub open spec fn yields(self, world: World, state: DetectionState, record: TagRecord) -> bool {
        exists|i: int|
            state.next <= i < state.pending.len() && #[trigger] self.finding(
                world,
                state.versions,
                state.pending[i],
            ) == Finding::Record(record)
    }

    /// Some pending release from `next` on is passed over with this note.
    pub open spec fn passes(
        self,
        world: World,
        state: DetectionState,
        note: SkippedRecord,
    ) -> bool {
        exists|i: int|
            state.next <= i < state.pending.len() && #[trigger] self.finding(
                world,
                state.versions,
                state.pending[i],
            ) == Finding::Passed(note.reason) && state.pending[i].note.version == note.version
    }

    /// The archive of some pending release from `next` on cannot be read, in
    /// this way.
    pub open spec fn breaks(
        self,
        world: World,
        state: DetectionState,
        fault: ArchiveFault,
    ) -> bool {
        exists|i: int|
            state.next <= i < state.pending.len() && #[trigger] self.finding(
                world,
                state.versions,
                state.pending[i],
            ) == Finding::Broken(fault)
    }

    /// Some pending release from `next` on is listed by the registry with
    /// its archive at this address.
    pub open spec fn fetches(self, state: DetectionState, url: Seq<char>) -> bool {
        exists|i: int|
            state.next <= i < state.pending.len() && (#[trigger] position_of(
                state.versions,
                state.pending[i].note.version,
            ) matches Some(place) && state.versions[place].dl_url == url)
    }
}

/// What the rest of a detection comes to. Its report holds the records
/// gathered so far and those that the releases still pending give, no others,
/// and likewise for the releases passed over. It fails where an archive of a
/// pending release cannot be read, and only there. It asks for archives of
/// pending releases that the registry lists, and for nothing else.
pub proof fn lemma_conclude_accounts(settings: Settings, world: World, state: DetectionState)
    requires
        state.next <= state.pending.len(),
    ensures
        match settings.conclude(world, state).ending {
            Ending::Report(report) => {
                &&& forall|record: TagRecord| #[trigger]
                    report.versions.contains(record) <==> state.found.contains(record)
                        || settings.yields(world, state, record)
                &&& forall|note: SkippedRecord| #[trigger]
                    report.skipped.contains(note) <==> state.skipped.contains(note)
                        || settings.passes(world, state, note)
                &&& forall|fault: ArchiveFault| !settings.breaks(world, state, fault)
            },
            Ending::Failed(failure) => failure matches Failure::Archive(fault) && settings.breaks(
                world,
                state,
                fault,
            ),
            Ending::Unfinished => false,
        },
        forall|k: int|
            0 <= k < settings.conclude(world, state).requests.len() ==> (
            #[trigger] settings.conclude(world, state).requests[k] matches RequestRecord::Archive(
                url,
            ) && settings.fetches(state, url)),
    decreases state.pending.len() - state.next,
{
    if state.next >= state.pending.len() {
        let report = ReportRecord { versions: chronological(state.found), skipped: state.skipped };
        assert forall|record: TagRecord| #[trigger]
            report.versions.contains(record) <==> state.found.contains(record) || settings.yields(
                world,
                state,
                record,
            ) by {
            lemma_chronological_contains(state.found, record);
        }
    } else {
        let candidate = state.pending[state.next as int];
        match settings.finding(world, state.versions, candidate) {
            Finding::Record(record) => {
                let next = state.keep(record);
                lemma_conclude_accounts(settings, world, next);
                assert forall|fault: ArchiveFault| settings.breaks(world, state, fault)
                    implies settings.breaks(world, next, fault) by {}
                assert forall|other: TagRecord| #[trigger]
                    next.found.contains(other) <==> state.found.contains(other) || other
                        == record by {
                    if state.found.contains(other) {
                        let k = choose|k: int|
                            0 <= k < state.found.len() && state.found[k] == other;
                        assert(next.found[k] == other);
                    }
                    if other == record {
                        assert(next.found[state.found.len() as int] == other);
                    }
                }
            },
            Finding::Passed(reason) => {
                let next = state.skip(reason);
                let noted = SkippedRecord { version: candidate.note.version, reason };
                lemma_conclude_accounts(settings, world, next);
                assert forall|fault: ArchiveFault| settings.breaks(world, state, fault)
                    implies settings.breaks(world, next, fault) by {}
                assert forall|other: SkippedRecord| #[trigger]
                    next.skipped.contains(other) <==> state.skipped.contains(other) || other
                        == noted by {
                    if state.skipped.contains(other) {
                        let k = choose|k: int|
                            0 <= k < state.skipped.len() && state.skipped[k] == other;
                        assert(next.skipped[k] == other);
                    }
                    if other == noted {
                        assert(next.skipped[state.skipped.len() as int] == other);
                    }
                }
            },
            Finding::Broken(_) => {},
        }
    }
}

impl Settings {
    /// The release `note` stands in the changelog and needs a look at the
    /// registry, and the registry lists it as `version`.
    pub open spec fn listed(
        self,
        world: World,
        note: ReleaseNote,
        version: RegistryVersion,
    ) -> bool {
        &&& self.releases(world).contains(note)
        &&& self.needs_tag(self.known_tags(world), note)
        &&& crate_versions((world.listings)(self.crate_name)) matches Ok(versions)
        &&& position_of(versions, note.version) matches Some(place)
        &&& versions[place] == version
    }

    /// The record stands for the release `note`, which the registry lists as
    /// `version` and whose archive names the record's commit.
    pub open spec fn supports(
        self,
        world: World,
        note: ReleaseNote,
        version: RegistryVersion,
        record: TagRecord,
    ) -> bool {
        &&& self.listed(world, note, version)
        &&& version.name == note.version
        &&& self.archive_outcome(world, version) == Ok::<Option<Seq<char>>, ArchiveFault>(
            Some(record.commit_hash),
        )
        &&& record == TagRecord {
            version: note.version,
            tagname: tag_name(self.tag_prefix, note.version),
            commit_hash: record.commit_hash,
            created_at: version.created_at,
            title: release_title(self.title_prefix, note.title),
            notes: note.notes,
        }
    }

    /// Some release of the changelog that needs a look at the registry is
    /// listed there and has a record like this one.
    pub open spec fn justified(self, world: World, record: TagRecord) -> bool {
        exists|note: ReleaseNote, version: RegistryVersion| #[trigger]
            self.supports(world, note, version, record)
    }

    /// Some release of the changelog that needs a look at the registry is
    /// listed there with its archive at `url`.
    pub open spec fn called_for(self, world: World, url: Seq<char>) -> bool {
        exists|note: ReleaseNote, version: RegistryVersion| #[trigger]
            self.listed(world, note, version) && version.dl_url == url
    }

    /// Some release of the changelog that needs a look at the registry is
    /// listed there and its archive cannot be read, in this way.
    pub open spec fn spoiled(self, world: World, fault: ArchiveFault) -> bool {
        exists|note: ReleaseNote, version: RegistryVersion| #[trigger]
            self.listed(world, note, version) && self.archive_outcome(world, version) == Err::<
                Option<Seq<char>>,
                ArchiveFault,
            >(fault)
    }
}

/// The releases that need a look at the registry are releases of the
/// changelog that pass the test, each with the name of its tag; and every
/// release that passes the test is among them.
pub proof fn lemma_candidates(settings: Settings, tags: Seq<Seq<char>>, notes: Seq<ReleaseNote>)
    ensures
        forall|i: int|
            0 <= i < settings.candidates(tags, notes).len() ==> {
                let candidate = #[trigger] settings.candidates(tags, notes)[i];
                &&& notes.contains(candidate.note)
                &&& settings.needs_tag(tags, candidate.note)
                &&& candidate == settings.candidate(candidate.note)
            },
        forall|j: int|
            0 <= j < notes.len() && settings.needs_tag(tags, notes[j]) ==> settings.candidates(
                tags,
                notes,
            ).contains(settings.candidate(#[trigger] notes[j])),
{
    let picked = notes.filter(settings.selector(tags));
    let candidates = settings.candidates(tags, notes);
    assert forall|i: int| 0 <= i < candidates.len() implies {
        let candidate = #[trigger] candidates[i];
        &&& notes.contains(candidate.note)
        &&& settings.needs_tag(tags, candidate.note)
        &&& candidate == settings.candidate(candidate.note)
    } by {
        notes.lemma_filter_contains_rev(settings.selector(tags), picked[i]);
    }
    assert forall|j: int|
        0 <= j < notes.len() && settings.needs_tag(tags, notes[j]) implies candidates.contains(
        settings.candidate(#[trigger] notes[j]),
    ) by {
        notes.lemma_filter_contains(settings.selector(tags), j);
        let k = choose|k: int| 0 <= k < picked.len() && picked[k] == notes[j];
        assert(candidates[k] == settings.candidate(notes[j]));
    }
}

/// What a whole detection comes to.
///
/// Every record of its report is justified: it stands for a release of the
/// changelog that needs a tag, that the registry lists and whose archive
/// names a commit. Conversely every such release has its record in the
/// report. The detection fails only on a download path that forms no address
/// or on an archive that cannot be read. Every archive it asks for is that of
/// a release of the changelog that needs a tag.
pub proof fn lemma_detect_accounts(settings: Settings, world: World)
    ensures
        match settings.detect(world).ending {
            Ending::Report(report) => {
                &&& forall|record: TagRecord| #[trigger]
                    report.versions.contains(record) <==> settings.justified(world, record)
                &&& forall|fault: ArchiveFault| !settings.spoiled(world, fault)
            },
            Ending::Failed(Failure::DownloadPath(path)) => crate_versions(
                (world.listings)(settings.crate_name),
            ) == Err::<Seq<RegistryVersion>, Seq<char>>(path),
            Ending::Failed(Failure::Archive(fault)) => settings.spoiled(world, fault),
            Ending::Failed(Failure::UnexpectedReply) => false,
            Ending::Unfinished => false,
        },
        forall|k: int|
            0 <= k < settings.detect(world).requests.len() ==> match #[trigger] settings.detect(
                world,
            ).requests[k] {
                RequestRecord::ExistingTags => !settings.include_existing,
                RequestRecord::Changelog(path) => path == settings.changelog_path,
                RequestRecord::CrateVersions(crate_name) => crate_name == settings.crate_name
                    && settings.pending(world).len() > 0,
                RequestRecord::Archive(url) => settings.called_for(world, url),
            },
{
    let tags = settings.known_tags(world);
    let notes = settings.releases(world);
    let pending = settings.pending(world);
    let course = settings.detect(world);
    lemma_candidates(settings, tags, notes);
    if pending.len() > 0 {
        let asked = settings.opening().push(RequestRecord::CrateVersions(settings.crate_name));
        match crate_versions((world.listings)(settings.crate_name)) {
            Err(path) => {},
            Ok(versions) => {
                let state = settings.surveyed(world, versions);
                let rest = settings.conclude(world, state);
                lemma_conclude_accounts(settings, world, state);
                // A pending release and what is found of it, seen from the changelog.
                assert forall|i: int|
                    0 <= i < pending.len() implies (match #[trigger] settings.finding(
                    world,
                    versions,
                    pending[i],
                ) {
                    Finding::Record(record) => exists|version: RegistryVersion|
                        settings.supports(world, pending[i].note, version, record),
                    Finding::Broken(fault) => exists|version: RegistryVersion|
                        settings.listed(world, pending[i].note, version)
                            && settings.archive_outcome(world, version) == Err::<
                            Option<Seq<char>>,
                            ArchiveFault,
                        >(fault),
                    Finding::Passed(_) => true,
                }) by {
                    lemma_position_of(versions, pending[i].note.version);
                    match position_of(versions, pending[i].note.version) {
                        Some(place) => {
                            let version = versions[place];
                            match settings.finding(world, versions, pending[i]) {
                                Finding::Record(record) => {
                                    assert(settings.supports(
                                        world,
                                        pending[i].note,
                                        version,
                                        record,
                                    ));
                                },
                                _ => {},
                            }
                        },
                        None => {},
                    }
                }
                match rest.ending {
                    Ending::Report(report) => {
                        assert forall|record: TagRecord| #[trigger]
                            report.versions.contains(record) <==> settings.justified(
                                world,
                                record,
                            ) by {
                            if settings.justified(world, record) {
                                let (note, version) = choose|
                                    note: ReleaseNote,
                                    version: RegistryVersion,
                                | #[trigger] settings.supports(world, note, version, record);
                                let i = choose|i: int|
                                    0 <= i < pending.len() && pending[i] == settings.candidate(
                                        note,
                                    );
                                assert(settings.finding(world, state.versions, state.pending[i])
                                    == Finding::Record(record));
                            }
                        }
                        assert forall|fault: ArchiveFault| !settings.spoiled(world, fault) by {
                            if settings.spoiled(world, fault) {
                                let (note, version) = choose|
                                    note: ReleaseNote,
                                    version: RegistryVersion,
                                | #[trigger]
                                    settings.listed(world, note, version)
                                        && settings.archive_outcome(world, version) == Err::<
                                        Option<Seq<char>>,
                                        ArchiveFault,
                                    >(fault);
                                let i = choose|i: int|
                                    0 <= i < pending.len() && pending[i] == settings.candidate(
                                        note,
                                    );
                                assert(settings.finding(world, state.versions, state.pending[i])
                                    == Finding::Broken(fault));
                                assert(settings.breaks(world, state, fault));
                            }
                        }
                    },
                    _ => {},
                }
                assert forall|k: int|
                    0 <= k < course.requests.len() implies match #[trigger] course.requests[k] {
                    RequestRecord::ExistingTags => !settings.include_existing,
                    RequestRecord::Changelog(path) => path == settings.changelog_path,
                    RequestRecord::CrateVersions(crate_name) => crate_name == settings.crate_name
                        && settings.pending(world).len() > 0,
                    RequestRecord::Archive(url) => settings.called_for(world, url),
                } by {
                    if k >= asked.len() {
                        let request = rest.requests[k - asked.len()];
                        let url = request->Archive_0;
                        let i = choose|i: int|
                            state.next <= i < state.pending.len() && (#[trigger] position_of(
                                state.versions,
                                state.pending[i].note.version,
                            ) matches Some(place) && state.versions[place].dl_url == url);
                        let place = position_of(versions, pending[i].note.version)->Some_0;
                        assert(settings.listed(world, pending[i].note, versions[place]));
                    }
                }
            },
        }
    }
}

/// The report of what is left of a detection is in the order of publication.
pub proof fn lemma_conclude_in_order(settings: Settings, world: World, state: DetectionState)
    requires
        state.next <= state.pending.len(),
    ensures
        settings.conclude(world, state).ending matches Ending::Report(report) ==> {
            &&& in_order(report.versions)
            &&& forall|i: int, j: int|
                0 <= i < report.versions.len() && 0 <= j < report.versions.len() && (
                #[trigger] report.versions[i]).created_at.precedes(
                    (#[trigger] report.versions[j]).created_at,
                ) ==> i < j
        },
    decreases state.pending.len() - state.next,
{
    if state.next >= state.pending.len() {
        lemma_chronological_in_order(state.found);
    } else {
        match settings.finding(world, state.versions, state.pending[state.next as int]) {
            Finding::Record(record) => lemma_conclude_in_order(settings, world, state.keep(record)),
            Finding::Passed(reason) => lemma_conclude_in_order(settings, world, state.skip(reason)),
            Finding::Broken(_) => {},
        }
    }
}

/// No record is ever made of the collecting place for unreleased work,
/// whatever the registry lists.
pub proof fn lemma_unreleased_is_never_tagged(settings: Settings, world: World)
    ensures
        settings.detect(world).ending matches Ending::Report(report) ==> forall|k: int|
            0 <= k < report.versions.len() ==> (#[trigger] report.versions[k]).version
                != unreleased(),
{
    lemma_detect_accounts(settings, world);
    if let Ending::Report(report) = settings.detect(world).ending {
        assert forall|k: int| 0 <= k < report.versions.len() implies (
        #[trigger] report.versions[k]).version != unreleased() by {
            assert(report.versions.contains(report.versions[k]));
        }
    }
}

/// Where existing tags count, a release whose tag the repository has is left
/// alone: the report holds no record with such a tag, and every archive that
/// is asked for belongs to a release whose tag the repository lacks. Where no
/// release is left to look at, only the tags and the changelog are asked for
/// and the registry never is.
pub proof fn lemma_tagged_releases_are_left_alone(settings: Settings, world: World)
    requires
        !settings.include_existing,
    ensures
        settings.detect(world).ending matches Ending::Report(report) ==> forall|k: int|
            0 <= k < report.versions.len() ==> !world.tags.contains(
                (#[trigger] report.versions[k]).tagname,
            ),
        forall|k: int|
            0 <= k < settings.detect(world).requests.len() ==> (#[trigger] settings.detect(
                world,
            ).requests[k] matches RequestRecord::Archive(url) ==> exists|
                note: ReleaseNote,
                version: RegistryVersion,
            |
                {
                    &&& #[trigger] settings.listed(world, note, version)
                    &&& !world.tags.contains(tag_name(settings.tag_prefix, note.version))
                    &&& version.dl_url == url
                }),
        (forall|j: int|
            0 <= j < settings.releases(world).len() ==> !settings.needs_tag(
                world.tags,
                #[trigger] settings.releases(world)[j],
            )) ==> settings.detect(world) == (Course {
            requests: seq![
                RequestRecord::ExistingTags,
                RequestRecord::Changelog(settings.changelog_path),
            ],
            ending: Ending::Report(ReportRecord { versions: Seq::empty(), skipped: Seq::empty() }),
        }),
{
    lemma_detect_accounts(settings, world);
    let course = settings.detect(world);
    if let Ending::Report(report) = course.ending {
        assert forall|k: int| 0 <= k < report.versions.len() implies !world.tags.contains(
            (#[trigger] report.versions[k]).tagname,
        ) by {
            assert(report.versions.contains(report.versions[k]));
        }
    }
    if forall|j: int|
        0 <= j < settings.releases(world).len() ==> !settings.needs_tag(
            world.tags,
            #[trigger] settings.releases(world)[j],
        ) {
        lemma_candidates(settings, world.tags, settings.releases(world));
    }
}

/// A release that the registry does not list is passed over: no record is
/// made of its version and it is noted as not published. The detection does
/// not fail on its account; where it fails, the archive of another release
/// could not be read.
pub proof fn lemma_unpublished_release_is_passed_over(
    settings: Settings,
    world: World,
    note: ReleaseNote,
    versions: Seq<RegistryVersion>,
)
    requires
        settings.releases(world).contains(note),
        settings.needs_tag(settings.known_tags(world), note),
        crate_versions((world.listings)(settings.crate_name)) == Ok::<
            Seq<RegistryVersion>,
            Seq<char>,
        >(versions),
        forall|j: int| 0 <= j < versions.len() ==> (#[trigger] versions[j]).name != note.version,
    ensures
        match settings.detect(world).ending {
            Ending::Report(report) => {
                &&& forall|k: int|
                    0 <= k < report.versions.len() ==> (#[trigger] report.versions[k]).version
                        != note.version
                &&& report.skipped.contains(
                    SkippedRecord { version: note.version, reason: SkipReason::NotPublished },
                )
            },
            Ending::Failed(failure) => failure matches Failure::Archive(fault) && exists|
                other: ReleaseNote,
                version: RegistryVersion,
            |
                {
                    &&& #[trigger] settings.listed(world, other, version)
                    &&& other.version != note.version
                    &&& settings.archive_outcome(world, version) == Err::<
                        Option<Seq<char>>,
                        ArchiveFault,
                    >(fault)
                },
            Ending::Unfinished => false,
        },
{
    lemma_position_of(versions, note.version);
    lemma_passed_over(settings, world, note, versions, SkipReason::NotPublished);
}

/// A release whose archive names no commit is passed over: no record is made
/// of its version and it is noted as having no commit. The detection does not
/// fail on its account; where it fails, the archive of another release could
/// not be read.
pub proof fn lemma_release_without_commit_is_passed_over(
    settings: Settings,
    world: World,
    note: ReleaseNote,
    version: RegistryVersion,
)
    requires
        settings.listed(world, note, version),
        settings.archive_outcome(world, version) == Ok::<Option<Seq<char>>, ArchiveFault>(None),
    ensures
        match settings.detect(world).ending {
            Ending::Report(report) => {
                &&& forall|k: int|
                    0 <= k < report.versions.len() ==> (#[trigger] report.versions[k]).version
                        != note.version
                &&& report.skipped.contains(
                    SkippedRecord { version: note.version, reason: SkipReason::NoCommitHash },
                )
            },
            Ending::Failed(failure) => failure matches Failure::Archive(fault) && exists|
                other: ReleaseNote,
                found: RegistryVersion,
            |
                {
                    &&& #[trigger] settings.listed(world, other, found)
                    &&& other.version != note.version
                    &&& settings.archive_outcome(world, found) == Err::<
                        Option<Seq<char>>,
                        ArchiveFault,
                    >(fault)
                },
            Ending::Unfinished => false,
        },
{
    let versions = crate_versions((world.listings)(settings.crate_name))->Ok_0;
    lemma_passed_over(settings, world, note, versions, SkipReason::NoCommitHash);
}

/// What is common to the releases that are passed over.
proof fn lemma_passed_over(
    settings: Settings,
    world: World,
    note: ReleaseNote,
    versions: Seq<RegistryVersion>,
    reason: SkipReason,
)
    requires
        settings.releases(world).contains(note),
        settings.needs_tag(settings.known_tags(world), note),
        crate_versions((world.listings)(settings.crate_name)) == Ok::<
            Seq<RegistryVersion>,
            Seq<char>,
        >(versions),
        settings.finding(world, versions, settings.candidate(note)) == Finding::Passed(reason),
    ensures
        match settings.detect(world).ending {
            Ending::Report(report) => {
                &&& forall|k: int|
                    0 <= k < report.versions.len() ==> (#[trigger] report.versions[k]).version
                        != note.version
                &&& report.skipped.contains(SkippedRecord { version: note.version, reason })
            },
            Ending::Failed(failure) => failure matches Failure::Archive(fault) && exists|
                other: ReleaseNote,
                version: RegistryVersion,
            |
                {
                    &&& #[trigger] settings.listed(world, other, version)
                    &&& other.version != note.version
                    &&& settings.archive_outcome(world, version) == Err::<
                        Option<Seq<char>>,
                        ArchiveFault,
                    >(fault)
                },
            Ending::Unfinished => false,
        },
{
    let tags = settings.known_tags(world);
    let notes = settings.releases(world);
    lemma_candidates(settings, tags, notes);
    lemma_detect_accounts(settings, world);
    let state = settings.surveyed(world, versions);
    lemma_conclude_accounts(settings, world, state);
    if let Ending::Report(report) = settings.detect(world).ending {
        assert forall|k: int| 0 <= k < report.versions.len() implies (
        #[trigger] report.versions[k]).version != note.version by {
            assert(report.versions.contains(report.versions[k]));
        }
    }
}

/// A detection that is run once more in a world that has not changed asks for
/// the same things in the same order and ends with the same report: the same
/// records with the same fields in the same order.
pub proof fn lemma_detection_repeats(settings: Settings, world: World, first: nat, second: nat)
    requires
        first >= settings.pending(world).len() + 3,
        second >= settings.pending(world).len() + 3,
    ensures
        settings.drive(world, settings.start(), first) == settings.drive(
            world,
            settings.start(),
            second,
        ),
        settings.drive(world, settings.start(), first).ending !is Unfinished,
{
    lemma_drive_detects(settings, world, first);
    lemma_drive_detects(settings, world, second);
    lemma_detect_accounts(settings, world);
}

/// The report is in the order of publication: a record that was published
/// before another one stands in front of it, wherever the two releases stand
/// in the changelog.
pub proof fn lemma_report_is_in_order(settings: Settings, world: World)
    ensures
        settings.detect(world).ending matches Ending::Report(report) ==> {
            &&& in_order(report.versions)
            &&& forall|i: int, j: int|
                0 <= i < report.versions.len() && 0 <= j < report.versions.len() && (
                #[trigger] report.versions[i]).created_at.precedes(
                    (#[trigger] report.versions[j]).created_at,
                ) ==> i < j
        },
{
    if settings.pending(world).len() > 0 {
        match crate_versions((world.listings)(settings.crate_name)) {
            Ok(versions) => {
                lemma_conclude_in_order(settings, world, settings.surveyed(world, versions));
            },
            Err(_) => {},
        }
    }
}

impl Settings {
    /// The test that a release gets a record.
    pub open spec fn recorded(self, world: World, versions: Seq<RegistryVersion>) -> spec_fn(
        CandidateRecord,
    ) -> bool {
        |candidate: CandidateRecord| self.finding(world, versions, candidate) is Record
    }

    /// The test that a release is passed over.
    pub open spec fn passed(self, world: World, versions: Seq<RegistryVersion>) -> spec_fn(
        CandidateRecord,
    ) -> bool {
        |candidate: CandidateRecord| self.finding(world, versions, candidate) is Passed
    }

    /// The records of the releases among `pending` that get one, in the
    /// order of `pending`.
    pub open spec fn records(
        self,
        world: World,
        versions: Seq<RegistryVersion>,
        pending: Seq<CandidateRecord>,
    ) -> Seq<TagRecord> {
        pending.filter(self.recorded(world, versions)).map_values(
            |candidate: CandidateRecord| self.finding(world, versions, candidate)->Record_0,
        )
    }

    /// The notes on the releases among `pending` that are passed over, in
    /// the order of `pending`.
    pub open spec fn notes(
        self,
        world: World,
        versions: Seq<RegistryVersion>,
        pending: Seq<CandidateRecord>,
    ) -> Seq<SkippedRecord> {
        pending.filter(self.passed(world, versions)).map_values(
            |candidate: CandidateRecord|
                SkippedRecord {
                    version: candidate.note.version,
                    reason: self.finding(world, versions, candidate)->Passed_0,
                },
        )
    }
}

/// Where every archive that is looked at can be read, what is left of a
/// detection ends with a report. It holds the records gathered so far and
/// those of the releases still pending, put in the order of publication, and
/// the notes on the releases passed over, in the changelog's order.
pub proof fn lemma_conclude_in_full(settings: Settings, world: World, state: DetectionState)
    requires
        state.next <= state.pending.len(),
        forall|i: int|
            state.next <= i < state.pending.len() ==> #[trigger] settings.finding(
                world,
                state.versions,
                state.pending[i],
            ) !is Broken,
    ensures
        settings.conclude(world, state).ending == Ending::Report(
            ReportRecord {
                versions: chronological(
                    state.found + settings.records(
                        world,
                        state.versions,
                        state.pending.skip(state.next as int),
                    ),
                ),
                skipped: state.skipped + settings.notes(
                    world,
                    state.versions,
                    state.pending.skip(state.next as int),
                ),
            },
        ),
    decreases state.pending.len() - state.next,
{
    let versions = state.versions;
    let left = state.pending.skip(state.next as int);
    if state.next < state.pending.len() {
        let candidate = state.pending[state.next as int];
        let rest = state.pending.skip(state.next as int + 1);
        assert(left =~= seq![candidate] + rest);
        rest.lemma_filter_prepend(candidate, settings.recorded(world, versions));
        rest.lemma_filter_prepend(candidate, settings.passed(world, versions));
        let finding = settings.finding(world, versions, candidate);
        let next = match finding {
            Finding::Record(record) => state.keep(record),
            Finding::Passed(reason) => state.skip(reason),
            Finding::Broken(_) => state,
        };
        lemma_conclude_in_full(settings, world, next);
        match finding {
            Finding::Record(record) => {
                assert(next.found + settings.records(world, versions, rest) =~= state.found
                    + settings.records(world, versions, left));
            },
            Finding::Passed(reason) => {
                assert(next.skipped + settings.notes(world, versions, rest) =~= state.skipped
                    + settings.notes(world, versions, left));
            },
            Finding::Broken(_) => {},
        }
    }
}

/// Where the registry's listing can be used and every archive that is looked
/// at can be read, the report of a detection is this: the records of the
/// releases that need a tag, are listed and name a commit, in the order of
/// publication; and the notes on the other releases that need a tag, in the
/// changelog's order.
pub proof fn lemma_report_in_full(settings: Settings, world: World, versions: Seq<RegistryVersion>)
    requires
        crate_versions((world.listings)(settings.crate_name)) == Ok::<
            Seq<RegistryVersion>,
            Seq<char>,
        >(versions),
        forall|i: int|
            0 <= i < settings.pending(world).len() ==> #[trigger] settings.finding(
                world,
                versions,
                settings.pending(world)[i],
            ) !is Broken,
    ensures
        settings.detect(world).ending == Ending::Report(
            ReportRecord {
                versions: chronological(settings.records(world, versions, settings.pending(world))),
                skipped: settings.notes(world, versions, settings.pending(world)),
            },
        ),
{
    let pending = settings.pending(world);
    if pending.len() == 0 {
        assert(settings.notes(world, versions, pending) =~= Seq::empty());
    } else {
        let state = settings.surveyed(world, versions);
        lemma_conclude_in_full(settings, world, state);
        assert(pending.skip(0) =~= pending);
    }
}

impl Settings {
    /// The test that the registry lists a release.
    pub open spec fn published(self, versions: Seq<RegistryVersion>) -> spec_fn(
        CandidateRecord,
    ) -> bool {
        |candidate: CandidateRecord| position_of(versions, candidate.note.version) is Some
    }

    /// The requests for the archives of the releases among `pending` that
    /// the registry lists, in the order of `pending`.
    pub open spec fn downloads(
        self,
        versions: Seq<RegistryVersion>,
        pending: Seq<CandidateRecord>,
    ) -> Seq<RequestRecord> {
        pending.filter(self.published(versions)).map_values(
            |candidate: CandidateRecord|
                RequestRecord::Archive(
                    versions[position_of(versions, candidate.note.version)->Some_0].dl_url,
                ),
        )
    }
}

/// Where every archive that is looked at can be read, what is left of a
/// detection asks for the archive of each pending release that the registry
/// lists, once, in the changelog's order, and for nothing else.
pub proof fn lemma_conclude_asks_in_full(settings: Settings, world: World, state: DetectionState)
    requires
        state.next <= state.pending.len(),
        forall|i: int|
            state.next <= i < state.pending.len() ==> #[trigger] settings.finding(
                world,
                state.versions,
                state.pending[i],
            ) !is Broken,
    ensures
        settings.conclude(world, state).requests == settings.downloads(
            state.versions,
            state.pending.skip(state.next as int),
        ),
    decreases state.pending.len() - state.next,
{
    let versions = state.versions;
    let left = state.pending.skip(state.next as int);
    if state.next < state.pending.len() {
        let candidate = state.pending[state.next as int];
        let rest = state.pending.skip(state.next as int + 1);
        assert(left =~= seq![candidate] + rest);
        rest.lemma_filter_prepend(candidate, settings.published(versions));
        let finding = settings.finding(world, versions, candidate);
        let next = match finding {
            Finding::Record(record) => state.keep(record),
            Finding::Passed(reason) => state.skip(reason),
            Finding::Broken(_) => state,
        };
        lemma_conclude_asks_in_full(settings, world, next);
    }
}

/// What a detection asks for, in full, where the registry's listing can be
/// used and every archive that is looked at can be read: the tags where they
/// count, the changelog, and, where some release needs a look at it, the
/// registry once and then the archive of each such release that the
/// registry lists, in the changelog's order.
pub proof fn lemma_requests_in_full(
    settings: Settings,
    world: World,
    versions: Seq<RegistryVersion>,
)
    requires
        crate_versions((world.listings)(settings.crate_name)) == Ok::<
            Seq<RegistryVersion>,
            Seq<char>,
        >(versions),
        forall|i: int|
            0 <= i < settings.pending(world).len() ==> #[trigger] settings.finding(
                world,
                versions,
                settings.pending(world)[i],
            ) !is Broken,
    ensures
        settings.detect(world).requests == if settings.pending(world).len() == 0 {
            settings.opening()
        } else {
            settings.opening().push(RequestRecord::CrateVersions(settings.crate_name))
                + settings.downloads(versions, settings.pending(world))
        },
{
    let pending = settings.pending(world);
    if pending.len() > 0 {
        lemma_conclude_asks_in_full(settings, world, settings.surveyed(world, versions));
        assert(pending.skip(0) =~= pending);
    }
}

} // verus!
