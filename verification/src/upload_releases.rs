//! Turning the releases to tag into calls of the release host's command line.
use vstd::prelude::*;
use crate::chronology::{chronological, sort_by_creation};
use crate::detect::{TagRecord, VersionToTag};

verus! {

/// How releases are handed to the release host.
#[derive(Clone, Copy, Debug, PartialEq, Eq)]
pub struct UploadReleases {
    /// Only show the calls; run none.
    pub dry_run: bool,
}

/// One call of the release host's command line.
#[derive(Debug, PartialEq, Eq)]
pub struct Invocation {
    pub program: String,
    pub arguments: Vec<String>,
    /// The call is to be shown, not run.
    pub dry_run: bool,
}

/// What an `Invocation` holds, as plain text.
pub struct InvocationRecord {
    pub program: Seq<char>,
    pub arguments: Seq<Seq<char>>,
    pub dry_run: bool,
}

impl DeepView for Invocation {
    type V = InvocationRecord;

    open spec fn deep_view(&self) -> InvocationRecord {
        InvocationRecord {
            program: self.program@,
            arguments: self.arguments.deep_view(),
            dry_run: self.dry_run,
        }
    }
}

/// The arguments that create the hosted release of a record: the tag, the
/// commit it points to, the title and the notes.
pub open spec fn release_arguments(record: TagRecord) -> Seq<Seq<char>> {
    seq![
        "release"@,
        "create"@,
        record.tagname,
        "--target"@,
        record.commit_hash,
        "--title"@,
        record.title,
        "--notes"@,
        record.notes,
    ]
}

/// The call that creates the hosted release of a record.
pub open spec fn invocation(record: TagRecord, dry_run: bool) -> InvocationRecord {
    InvocationRecord { program: "gh"@, arguments: release_arguments(record), dry_run }
}

impl UploadReleases {
    /// Forms the call that creates the hosted release of one version.
    pub fn invocation_for(&self, version: &VersionToTag) -> (call: Invocation)
        ensures
            call.deep_view() == invocation(version.deep_view(), self.dry_run),
    {
        let mut arguments: Vec<String> = Vec::new();
        arguments.push("release".to_owned());
        arguments.push("create".to_owned());
        arguments.push(version.tagname.clone());
        arguments.push("--target".to_owned());
        arguments.push(version.commit_hash.clone());
        arguments.push("--title".to_owned());
        arguments.push(version.title.clone());
        arguments.push("--notes".to_owned());
        arguments.push(version.notes.clone());
        proof {
            assert(arguments.deep_view() =~= release_arguments(version.deep_view()));
        }
        Invocation { program: "gh".to_owned(), arguments, dry_run: self.dry_run }
    }

    /// Forms the calls that create the hosted releases of `versions`, one
    /// for each, in the order of their publication.
    pub fn upload_versions_as_releases(&self, versions: Vec<VersionToTag>) -> (calls: Vec<
        Invocation,
    >)
        ensures
            calls.deep_view() == chronological(versions.deep_view()).map_values(
                |record: TagRecord| invocation(record, self.dry_run),
            ),
    {
        let ghost wanted = chronological(versions.deep_view()).map_values(
            |record: TagRecord| invocation(record, self.dry_run),
        );
        let sorted = sort_by_creation(versions);
        let mut calls: Vec<Invocation> = Vec::new();
        let mut i: usize = 0;
        while i < sorted.len()
            invariant
                i <= sorted.len(),
                sorted.deep_view().len() == wanted.len(),
                wanted == sorted.deep_view().map_values(
                    |record: TagRecord| invocation(record, self.dry_run),
                ),
                calls.deep_view() =~= wanted.take(i as int),
            decreases sorted.len() - i,
        {
            let call = self.invocation_for(&sorted[i]);
            let ghost before = calls.deep_view();
            calls.push(call);
            proof {
                assert(calls.deep_view() =~= before.push(wanted[i as int]));
            }
            i = i + 1;
        }
        calls
    }
}

} // verus!
