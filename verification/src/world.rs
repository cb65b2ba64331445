//! A whole detection, seen against what stands outside it.
//!
//! A `World` fixes the answers that a detection can get. `detect` says what a
//! detection in that world asks for and how it ends, in one piece; `drive`
//! takes it there step by step, as a program around the library does. The two
//! agree, and what holds of every detection is proved of `detect`.
use vstd::prelude::*;
use crate::archive::{ArchiveFault, archive_listing, inspect};
use crate::changelog::{ReleaseNote, changelog_releases};
use crate::chronology::chronological;
use crate::detect::{
    Awaiting,
    CandidateRecord,
    DetectionState,
    Failure,
    ProgressRecord,
    ReplyRecord,
    ReportRecord,
    RequestRecord,
    Settings,
    SkipReason,
    TagRecord,
};
use crate::version_resolution::{PublishedRecord, RegistryVersion, crate_versions, position_of};

verus! {

/// What stands outside a detection: the tags of the repository, the text of
/// the file at each path, the registry's listing of each crate and the bytes
/// behind each address.
pub struct World {
    pub tags: Seq<Seq<char>>,
    pub files: spec_fn(Seq<char>) -> Seq<char>,
    pub listings: spec_fn(Seq<char>) -> Seq<PublishedRecord>,
    pub archives: spec_fn(Seq<char>) -> Seq<u8>,
}

impl World {
    /// The reply that this world gives to a request.
    pub open spec fn answer(self, request: RequestRecord) -> ReplyRecord {
        match request {
            RequestRecord::ExistingTags => ReplyRecord::ExistingTags(self.tags),
            RequestRecord::Changelog(path) => ReplyRecord::Changelog((self.files)(path)),
            RequestRecord::CrateVersions(crate_name) => ReplyRecord::CrateVersions(
                (self.listings)(crate_name),
            ),
            RequestRecord::Archive(url) => ReplyRecord::Archive((self.archives)(url)),
        }
    }
}

/// How a detection ends.
pub enum Ending {
    Report(ReportRecord),
    Failed(Failure),
    /// It was not taken to its end.
    Unfinished,
}

/// The course of a detection: what it asked for, in order, and how it ended.
pub struct Course {
    pub requests: Seq<RequestRecord>,
    pub ending: Ending,
}

impl Course {
    /// The course that begins with `request` and goes on as `self`.
    pub open spec fn after(self, request: RequestRecord) -> Course {
        Course { requests: seq![request] + self.requests, ending: self.ending }
    }
}

/// What the registry and one archive make of a release.
pub enum Finding {
    /// The release is to be tagged.
    Record(TagRecord),
    /// The release is passed over.
    Passed(SkipReason),
    /// The archive of the release cannot be read.
    Broken(ArchiveFault),
}

impl Settings {
    /// The tags that count: those of the repository, or none where existing
    /// tags are to be listed again.
    pub open spec fn known_tags(self, world: World) -> Seq<Seq<char>> {
        if self.include_existing {
            Seq::empty()
        } else {
            world.tags
        }
    }

    /// The releases that the changelog of `world` names.
    pub open spec fn releases(self, world: World) -> Seq<ReleaseNote> {
        changelog_releases((world.files)(self.changelog_path))
    }

    /// The releases of the changelog that need a look at the registry.
    pub open spec fn pending(self, world: World) -> Seq<CandidateRecord> {
        self.candidates(self.known_tags(world), self.releases(world))
    }

    /// What the archive of a version gives.
    pub open spec fn archive_outcome(self, world: World, version: RegistryVersion) -> Result<
        Option<Seq<char>>,
        ArchiveFault,
    > {
        inspect(archive_listing((world.archives)(version.dl_url)))
    }

    /// What a detection asks for before it turns to the registry.
    pub open spec fn opening(self) -> Seq<RequestRecord> {
        if self.include_existing {
            seq![RequestRecord::Changelog(self.changelog_path)]
        } else {
            seq![RequestRecord::ExistingTags, RequestRecord::Changelog(self.changelog_path)]
        }
    }

    /// What the registry and the archive behind it make of one release.
    pub open spec fn finding(
        self,
        world: World,
        versions: Seq<RegistryVersion>,
        candidate: CandidateRecord,
    ) -> Finding {
        match position_of(versions, candidate.note.version) {
            None => Finding::Passed(SkipReason::NotPublished),
            Some(place) => match self.archive_outcome(world, versions[place]) {
                Err(fault) => Finding::Broken(fault),
                Ok(None) => Finding::Passed(SkipReason::NoCommitHash),
                Ok(Some(commit_hash)) => Finding::Record(
                    self.record(candidate, versions[place], commit_hash),
                ),
            },
        }
    }

    /// The rest of a detection that has the registry's listing: the pending
    /// releases from `next` on are taken in turn. A release that the registry
    /// lists has its archive asked for; the first archive that cannot be read
    /// ends the detection.
    pub open spec fn conclude(self, world: World, state: DetectionState) -> Course
        decreases state.pending.len() - state.next,
    {
        if state.next >= state.pending.len() {
            Course {
                requests: Seq::empty(),
                ending: Ending::Report(
                    ReportRecord { versions: chronological(state.found), skipped: state.skipped },
                ),
            }
        } else {
            let candidate = state.pending[state.next as int];
            match position_of(state.versions, candidate.note.version) {
                None => self.conclude(world, state.skip(SkipReason::NotPublished)),
                Some(place) => {
                    let request = RequestRecord::Archive(state.versions[place].dl_url);
                    match self.finding(world, state.versions, candidate) {
                        Finding::Broken(fault) => Course {
                            requests: seq![request],
                            ending: Ending::Failed(Failure::Archive(fault)),
                        },
                        Finding::Passed(reason) => self.conclude(world, state.skip(reason)).after(
                            request,
                        ),
                        Finding::Record(record) => self.conclude(world, state.keep(record)).after(
                            request,
                        ),
                    }
                },
            }
        }
    }

    /// The state of a detection that has just got the registry's listing.
    pub open spec fn surveyed(
        self,
        world: World,
        versions: Seq<RegistryVersion>,
    ) -> DetectionState {
        DetectionState {
            awaiting: Awaiting::Archive,
            tags: self.known_tags(world),
            pending: self.pending(world),
            versions,
            next: 0,
            found: Seq::empty(),
            skipped: Seq::empty(),
        }
    }

    /// The course of a whole detection in `world`.
    ///
    /// The tags are asked for unless existing tags do not count, then the
    /// changelog. Where no release needs a look at the registry the detection
    /// ends there with an empty report. Else the registry is asked once, and
    /// the releases are taken in turn.
    pub open spec fn detect(self, world: World) -> Course {
        if self.pending(world).len() == 0 {
            Course {
                requests: self.opening(),
                ending: Ending::Report(
                    ReportRecord { versions: Seq::empty(), skipped: Seq::empty() },
                ),
            }
        } else {
            let asked = self.opening().push(RequestRecord::CrateVersions(self.crate_name));
            match crate_versions((world.listings)(self.crate_name)) {
                Err(path) => Course {
                    requests: asked,
                    ending: Ending::Failed(Failure::DownloadPath(path)),
                },
                Ok(versions) => {
                    let rest = self.conclude(world, self.surveyed(world, versions));
                    Course { requests: asked + rest.requests, ending: rest.ending }
                },
            }
        }
    }

    /// A detection taken onwards from `progress` for at most `steps` steps,
    /// each request answered by `world`.
    pub open spec fn drive(self, world: World, progress: ProgressRecord, steps: nat) -> Course
        decreases steps,
    {
        match progress {
            ProgressRecord::Complete(report) => Course {
                requests: Seq::empty(),
                ending: Ending::Report(report),
            },
            ProgressRecord::Pending(state, request) => if steps == 0 {
                Course { requests: Seq::empty(), ending: Ending::Unfinished }
            } else {
                match self.step(state, world.answer(request)) {
                    Err(failure) => Course {
                        requests: seq![request],
                        ending: Ending::Failed(failure),
                    },
                    Ok(next) => self.drive(world, next, (steps - 1) as nat).after(request),
                }
            },
        }
    }
}

/// Taking a detection on from the registry's listing, step by step, asks for
/// what `conclude` says and ends as `conclude` says.
pub proof fn lemma_drive_concludes(
    settings: Settings,
    world: World,
    state: DetectionState,
    steps: nat,
)
    requires
        state.awaiting == Awaiting::Archive,
        state.next <= state.pending.len(),
        steps >= state.pending.len() - state.next,
    ensures
        settings.drive(world, state.advance(), steps) == settings.conclude(world, state),
    decreases state.pending.len() - state.next,
{
    if state.next < state.pending.len() {
        let candidate = state.pending[state.next as int];
        // A release that the registry lacks costs no step; for any other one
        // the archive is asked for, and the reply is what `finding` reads.
        match settings.finding(world, state.versions, candidate) {
            Finding::Broken(_) => {},
            Finding::Passed(reason) => {
                let steps_left = if position_of(state.versions, candidate.note.version) is None {
                    steps
                } else {
                    (steps - 1) as nat
                };
                lemma_drive_concludes(settings, world, state.skip(reason), steps_left);
            },
            Finding::Record(record) => {
                lemma_drive_concludes(settings, world, state.keep(record), (steps - 1) as nat);
            },
        }
    }
}

/// A detection that is taken from its start through enough steps asks for
/// what `detect` says, in that order, and ends as `detect` says.
pub proof fn lemma_drive_detects(settings: Settings, world: World, steps: nat)
    requires
        steps >= settings.pending(world).len() + 3,
    ensures
        settings.drive(world, settings.start(), steps) == settings.detect(world),
{
    let path = RequestRecord::Changelog(settings.changelog_path);
    let read = DetectionState {
        tags: settings.known_tags(world),
        ..DetectionState::initial(Awaiting::Changelog)
    };
    let reading = ProgressRecord::Pending(read, path);
    // Where the tags count, one step is spent on them. Then the changelog is
    // awaited and the tags that count are known.
    let left: nat = if settings.include_existing {
        steps
    } else {
        (steps - 1) as nat
    };
    assert(settings.drive(world, settings.start(), steps) == Course {
        requests: settings.opening().drop_last() + settings.drive(world, reading, left).requests,
        ending: settings.drive(world, reading, left).ending,
    }) by {
        if !settings.include_existing {
            assert(settings.opening().drop_last() =~= seq![RequestRecord::ExistingTags]);
        }
    }
    // The step on the changelog picks the releases to look at.
    let planned = settings.plan(read, settings.releases(world));
    assert(settings.step(read, world.answer(path)) == planned);
    if settings.pending(world).len() == 0 {
        assert(settings.opening().drop_last() + seq![path] =~= settings.opening());
        assert(settings.drive(world, planned->Ok_0, (left - 1) as nat).requests =~= Seq::empty());
    } else {
        let listing = RequestRecord::CrateVersions(settings.crate_name);
        let asked = settings.opening().push(listing);
        assert(settings.opening().drop_last() + (seq![path] + seq![listing]) =~= asked);
        // The step on the registry's listing goes on to the first archive.
        if let Ok(versions) = crate_versions((world.listings)(settings.crate_name)) {
            let surveyed = settings.surveyed(world, versions);
            lemma_drive_concludes(settings, world, surveyed, (left - 2) as nat);
            let rest = settings.conclude(world, surveyed);
            assert(settings.opening().drop_last() + (seq![path] + (seq![listing] + rest.requests))
                =~= asked + rest.requests);
        }
    }
}

} // verus!
