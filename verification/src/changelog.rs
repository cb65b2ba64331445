//! Release notes, as a changelog lists them.
use vstd::prelude::*;

verus! {

/// The heading under which a changelog collects what is not released yet.
pub open spec fn unreleased() -> Seq<char> {
    "Unreleased"@
}

/// One release of a changelog: its version, the heading it stands under and
/// the text below that heading.
#[derive(Debug, PartialEq, Eq)]
pub struct ChangelogEntry {
    pub version: String,
    pub title: String,
    pub notes: String,
}

/// What a `ChangelogEntry` holds, as plain text.
pub struct ReleaseNote {
    pub version: Seq<char>,
    pub title: Seq<char>,
    pub notes: Seq<char>,
}

impl DeepView for ChangelogEntry {
    type V = ReleaseNote;

    open spec fn deep_view(&self) -> ReleaseNote {
        ReleaseNote { version: self.version@, title: self.title@, notes: self.notes@ }
    }
}

impl Clone for ChangelogEntry {
    fn clone(&self) -> (copy: ChangelogEntry)
        ensures
            copy == *self,
    {
        ChangelogEntry {
            version: self.version.clone(),
            title: self.title.clone(),
            notes: self.notes.clone(),
        }
    }
}

impl ChangelogEntry {
    /// An entry of these three parts.
    pub fn new(version: String, title: String, notes: String) -> (entry: ChangelogEntry)
        ensures
            entry == (ChangelogEntry { version, title, notes }),
    {
        ChangelogEntry { version, title, notes }
    }

    /// Tells whether this entry is the collecting place for unreleased work:
    /// its version is exactly `Unreleased`.
    pub fn is_unreleased(&self) -> (marker: bool)
        ensures
            marker == (self.version@ == unreleased()),
    {
        let heading = "Unreleased".to_owned();
        self.version == heading
    }
}

/// The releases that `parse_changelog::parse_iter` finds in a changelog
/// text, in the order of the text.
pub uninterp spec fn changelog_releases(text: Seq<char>) -> Seq<ReleaseNote>;

/// Runs `parse_changelog::parse_iter` over `text` and copies each release it
/// yields. The iterator depends on the text alone; the contract names what it
/// yields and says no more of it.
#[verifier::external_body]
pub(crate) fn parse_releases(text: &str) -> (entries: Vec<ChangelogEntry>)
    ensures
        entries.deep_view() == changelog_releases(text@),
{
    parse_changelog::parse_iter(text).map(
        |release| ChangelogEntry {
            version: release.version.to_owned(),
            title: release.title.to_owned(),
            notes: release.notes.to_owned(),
        },
    ).collect()
}

} // verus!
