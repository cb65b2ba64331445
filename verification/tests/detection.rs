use retrospective_crate_version_tagging::archive::{ArchiveError, ArchiveFault};
use retrospective_crate_version_tagging::changelog::ChangelogEntry;
use retrospective_crate_version_tagging::detect::{
    has_tag, Awaiting, Candidate, DetectError, DetectMissingTags, Detection, Progress, Reply,
    Report, Request, SkipReason, Skipped, VersionToTag,
};
use retrospective_crate_version_tagging::timestamp::Timestamp;
use retrospective_crate_version_tagging::version_resolution::{
    CrateVersion, PublishedVersion, RegistryError,
};
use std::io::Write;

const CHANGELOG: &str = "# Changelog

## Unreleased

- something in the works

## 0.2.0 - 2024-02-01

- second release

## 0.1.0 - 2024-01-01

- first release
";

struct World {
    tags: Vec<String>,
    changelog: String,
    listing: Vec<PublishedVersion>,
    archives: Vec<(String, Vec<u8>)>,
}

fn archive(files: &[(&str, &str)]) -> Vec<u8> {
    let mut builder = tar::Builder::new(Vec::new());
    for (path, content) in files {
        let mut header = tar::Header::new_gnu();
        header.set_size(content.len() as u64);
        header.set_mode(0o644);
        header.set_cksum();
        builder
            .append_data(&mut header, path, content.as_bytes())
            .unwrap();
    }
    let tar = builder.into_inner().unwrap();
    let mut encoder = flate2::write::GzEncoder::new(Vec::new(), flate2::Compression::default());
    encoder.write_all(&tar).unwrap();
    encoder.finish().unwrap()
}

fn archive_with_commit(commit: &str) -> Vec<u8> {
    let info = format!("{{\"git\":{{\"sha1\":\"{commit}\"}}}}");
    archive(&[("Cargo.toml", "[package]"), (".cargo_vcs_info.json", &info)])
}

fn download_path(version: &str) -> String {
    format!("/api/v1/crates/demo/{version}/download")
}

fn address(version: &str) -> String {
    format!("https://crates.io/api/v1/crates/demo/{version}/download")
}

fn published(version: &str, seconds: i64) -> PublishedVersion {
    PublishedVersion {
        num: version.to_string(),
        created_at: Timestamp::new(seconds, 0),
        dl_path: download_path(version),
    }
}

fn settings(tag_prefix: &str, title_prefix: Option<&str>, include_existing: bool) -> DetectMissingTags {
    DetectMissingTags {
        crate_name: "demo".to_string(),
        changelog_path: "CHANGELOG.md".to_string(),
        tag_prefix: tag_prefix.to_string(),
        title_prefix: title_prefix.map(|prefix| prefix.to_string()),
        include_existing,
    }
}

fn two_releases(tags: &[&str]) -> World {
    World {
        tags: tags.iter().map(|tag| tag.to_string()).collect(),
        changelog: CHANGELOG.to_string(),
        listing: vec![published("0.2.0", 2_000), published("0.1.0", 1_000)],
        archives: vec![
            (address("0.1.0"), archive_with_commit("aaa")),
            (address("0.2.0"), archive_with_commit("bbb")),
        ],
    }
}

fn answer(world: &World, request: &Request) -> Reply {
    match request {
        Request::ExistingTags => Reply::ExistingTags(world.tags.clone()),
        Request::Changelog(_) => Reply::Changelog(world.changelog.clone()),
        Request::CrateVersions(_) => Reply::CrateVersions(world.listing.clone()),
        Request::Archive(url) => {
            let found = world.archives.iter().find(|(at, _)| at == url);
            Reply::Archive(found.map(|(_, bytes)| bytes.clone()).unwrap_or_default())
        }
    }
}

fn detect(settings: &DetectMissingTags, world: &World) -> (Vec<Request>, Result<Report, DetectError>) {
    let mut asked = Vec::new();
    let mut progress = settings.start();
    loop {
        match progress {
            Progress::Complete(report) => return (asked, Ok(report)),
            Progress::Pending(state, request) => {
                let reply = answer(world, &request);
                asked.push(request);
                assert!(asked.len() < 100);
                match settings.run(state, reply) {
                    Ok(next) => progress = next,
                    Err(error) => return (asked, Err(error)),
                }
            }
        }
    }
}

fn versions_of(report: &Report) -> Vec<&str> {
    report.versions.iter().map(|record| record.version.as_str()).collect()
}

#[test]
fn two_untagged_releases_are_reported_oldest_first() {
    let (asked, outcome) = detect(&settings("v", None, false), &two_releases(&[]));
    let report = outcome.unwrap();
    assert_eq!(
        report.versions,
        vec![
            VersionToTag {
                version: "0.1.0".to_string(),
                tagname: "v0.1.0".to_string(),
                commit_hash: "aaa".to_string(),
                created_at: Timestamp::new(1_000, 0),
                title: "0.1.0 - 2024-01-01".to_string(),
                notes: "- first release".to_string(),
            },
            VersionToTag {
                version: "0.2.0".to_string(),
                tagname: "v0.2.0".to_string(),
                commit_hash: "bbb".to_string(),
                created_at: Timestamp::new(2_000, 0),
                title: "0.2.0 - 2024-02-01".to_string(),
                notes: "- second release".to_string(),
            },
        ]
    );
    assert!(report.skipped.is_empty());
    assert_eq!(
        asked,
        vec![
            Request::ExistingTags,
            Request::Changelog("CHANGELOG.md".to_string()),
            Request::CrateVersions("demo".to_string()),
            Request::Archive(address("0.2.0")),
            Request::Archive(address("0.1.0")),
        ]
    );
}

#[test]
fn tagged_release_is_left_out_and_never_fetched() {
    let (asked, outcome) = detect(&settings("v", None, false), &two_releases(&["v0.1.0"]));
    let report = outcome.unwrap();
    assert_eq!(versions_of(&report), vec!["0.2.0"]);
    assert_eq!(report.versions[0].tagname, "v0.2.0");
    assert_eq!(report.versions[0].commit_hash, "bbb");
    assert!(report.skipped.is_empty());
    assert_eq!(
        asked,
        vec![
            Request::ExistingTags,
            Request::Changelog("CHANGELOG.md".to_string()),
            Request::CrateVersions("demo".to_string()),
            Request::Archive(address("0.2.0")),
        ]
    );
}

#[test]
fn tag_of_another_prefix_does_not_count() {
    let (_, outcome) = detect(&settings("release-", None, false), &two_releases(&["v0.1.0", "0.1.0"]));
    let report = outcome.unwrap();
    assert_eq!(versions_of(&report), vec!["0.1.0", "0.2.0"]);
    assert_eq!(report.versions[0].tagname, "release-0.1.0");
    assert_eq!(report.versions[1].tagname, "release-0.2.0");
}

#[test]
fn empty_tag_prefix_gives_the_bare_version() {
    let (_, outcome) = detect(&settings("", None, false), &two_releases(&["0.2.0"]));
    let report = outcome.unwrap();
    assert_eq!(versions_of(&report), vec!["0.1.0"]);
    assert_eq!(report.versions[0].tagname, "0.1.0");
}

#[test]
fn all_releases_tagged_asks_neither_registry_nor_archives() {
    let (asked, outcome) = detect(&settings("v", None, false), &two_releases(&["v0.1.0", "v0.2.0", "v0.3.0"]));
    let report = outcome.unwrap();
    assert!(report.versions.is_empty());
    assert!(report.skipped.is_empty());
    assert_eq!(
        asked,
        vec![Request::ExistingTags, Request::Changelog("CHANGELOG.md".to_string())]
    );
}

#[test]
fn existing_tags_are_not_read_when_they_do_not_count() {
    let (asked, outcome) = detect(&settings("v", None, true), &two_releases(&["v0.1.0", "v0.2.0"]));
    let report = outcome.unwrap();
    assert_eq!(versions_of(&report), vec!["0.1.0", "0.2.0"]);
    assert_eq!(
        asked,
        vec![
            Request::Changelog("CHANGELOG.md".to_string()),
            Request::CrateVersions("demo".to_string()),
            Request::Archive(address("0.2.0")),
            Request::Archive(address("0.1.0")),
        ]
    );
}

#[test]
fn unreleased_is_never_reported() {
    let mut world = two_releases(&[]);
    world.listing.push(published("Unreleased", 3_000));
    world.archives.push((address("Unreleased"), archive_with_commit("ccc")));
    for include_existing in [false, true] {
        let (asked, outcome) = detect(&settings("v", None, include_existing), &world);
        let report = outcome.unwrap();
        assert_eq!(versions_of(&report), vec!["0.1.0", "0.2.0"]);
        assert!(report.skipped.iter().all(|skipped| skipped.version != "Unreleased"));
        assert!(!asked.contains(&Request::Archive(address("Unreleased"))));
    }
}

#[test]
fn only_the_exact_marker_is_left_out() {
    let entries = vec![
        ChangelogEntry::new("Unreleased".to_string(), "Unreleased".to_string(), String::new()),
        ChangelogEntry::new("unreleased".to_string(), "unreleased".to_string(), String::new()),
        ChangelogEntry::new("Unreleased ".to_string(), "Unreleased ".to_string(), String::new()),
        ChangelogEntry::new("UNRELEASED".to_string(), "UNRELEASED".to_string(), String::new()),
        ChangelogEntry::new(String::new(), String::new(), String::new()),
    ];
    let picked = settings("v", None, false).releases_to_check(&Vec::new(), &entries);
    let versions: Vec<&str> = picked.iter().map(|candidate| candidate.entry.version.as_str()).collect();
    assert_eq!(versions, vec!["unreleased", "Unreleased ", "UNRELEASED", ""]);
    assert!(entries[0].is_unreleased());
    assert!(!entries[1].is_unreleased());
}

#[test]
fn changelog_without_releases_ends_at_once() {
    let mut world = two_releases(&[]);
    world.changelog = "# Changelog\n\n## Unreleased\n\n- nothing yet\n".to_string();
    let (asked, outcome) = detect(&settings("v", None, false), &world);
    let report = outcome.unwrap();
    assert!(report.versions.is_empty());
    assert!(report.skipped.is_empty());
    assert_eq!(
        asked,
        vec![Request::ExistingTags, Request::Changelog("CHANGELOG.md".to_string())]
    );
}

#[test]
fn empty_changelog_ends_at_once() {
    let mut world = two_releases(&[]);
    world.changelog = String::new();
    let (asked, outcome) = detect(&settings("v", None, true), &world);
    assert_eq!(outcome.unwrap(), Report { versions: vec![], skipped: vec![] });
    assert_eq!(asked, vec![Request::Changelog("CHANGELOG.md".to_string())]);
}

#[test]
fn release_without_notes_has_empty_notes() {
    let mut world = two_releases(&[]);
    world.changelog = "# Changelog\n\n## 0.2.0\n\n## 0.1.0\n\n- first release\n".to_string();
    let (_, outcome) = detect(&settings("v", None, false), &world);
    let report = outcome.unwrap();
    assert_eq!(versions_of(&report), vec!["0.1.0", "0.2.0"]);
    assert_eq!(report.versions[1].notes, "");
    assert_eq!(report.versions[1].title, "0.2.0");
    assert_eq!(report.versions[0].notes, "- first release");
}

#[test]
fn release_that_the_registry_lacks_is_passed_over() {
    let mut world = two_releases(&[]);
    world.listing = vec![published("0.2.0", 2_000), published("0.1.1", 1_000)];
    let (asked, outcome) = detect(&settings("v", None, false), &world);
    let report = outcome.unwrap();
    assert_eq!(versions_of(&report), vec!["0.2.0"]);
    assert_eq!(
        report.skipped,
        vec![Skipped { version: "0.1.0".to_string(), reason: SkipReason::NotPublished }]
    );
    assert_eq!(asked.len(), 4);
    assert_eq!(asked[3], Request::Archive(address("0.2.0")));
}

#[test]
fn registry_without_any_version_passes_every_release_over() {
    let mut world = two_releases(&[]);
    world.listing = vec![];
    let (asked, outcome) = detect(&settings("v", None, false), &world);
    let report = outcome.unwrap();
    assert!(report.versions.is_empty());
    assert_eq!(
        report.skipped,
        vec![
            Skipped { version: "0.2.0".to_string(), reason: SkipReason::NotPublished },
            Skipped { version: "0.1.0".to_string(), reason: SkipReason::NotPublished },
        ]
    );
    assert_eq!(asked.len(), 3);
}

#[test]
fn version_names_are_matched_exactly() {
    let mut world = two_releases(&[]);
    world.listing = vec![published("0.2.0 ", 2_000), published("v0.1.0", 1_000), published("0.1", 500)];
    let (_, outcome) = detect(&settings("v", None, false), &world);
    let report = outcome.unwrap();
    assert!(report.versions.is_empty());
    assert_eq!(report.skipped.len(), 2);
}

#[test]
fn archive_without_metadata_file_passes_the_release_over() {
    let mut world = two_releases(&[]);
    world.archives[0].1 = archive(&[("Cargo.toml", "[package]")]);
    let (asked, outcome) = detect(&settings("v", None, false), &world);
    let report = outcome.unwrap();
    assert_eq!(versions_of(&report), vec!["0.2.0"]);
    assert_eq!(
        report.skipped,
        vec![Skipped { version: "0.1.0".to_string(), reason: SkipReason::NoCommitHash }]
    );
    assert_eq!(asked.len(), 5);
}

#[test]
fn commit_that_is_no_text_passes_the_release_over() {
    let mut world = two_releases(&[]);
    world.archives[1].1 = archive(&[(".cargo_vcs_info.json", r#"{"git":{"sha1":42}}"#)]);
    let (_, outcome) = detect(&settings("v", None, false), &world);
    let report = outcome.unwrap();
    assert_eq!(versions_of(&report), vec!["0.1.0"]);
    assert_eq!(
        report.skipped,
        vec![Skipped { version: "0.2.0".to_string(), reason: SkipReason::NoCommitHash }]
    );
}

#[test]
fn unreadable_archive_ends_the_detection() {
    let mut world = two_releases(&[]);
    world.archives[1].1 = b"garbage".to_vec();
    let (asked, outcome) = detect(&settings("v", None, false), &world);
    let error = outcome.unwrap_err();
    assert!(matches!(error, DetectError::Archive(ArchiveError::Read(_))));
    assert_eq!(asked.len(), 4);
    assert_eq!(asked[3], Request::Archive(address("0.2.0")));
}

#[test]
fn metadata_file_that_is_no_json_ends_the_detection() {
    let mut world = two_releases(&[]);
    world.archives[0].1 = archive(&[(".cargo_vcs_info.json", "{")]);
    let (asked, outcome) = detect(&settings("v", None, false), &world);
    match outcome.unwrap_err() {
        DetectError::Archive(error) => assert_eq!(error.fault(), ArchiveFault::Malformed),
        other => panic!("{other:?}"),
    }
    assert_eq!(asked.len(), 5);
}

#[test]
fn download_path_that_forms_no_address_ends_the_detection() {
    let mut world = two_releases(&[]);
    world.listing[1].dl_path = "https://[::1".to_string();
    let (asked, outcome) = detect(&settings("v", None, false), &world);
    match outcome.unwrap_err() {
        DetectError::Registry(RegistryError::DownloadPath(path)) => assert_eq!(path, "https://[::1"),
        other => panic!("{other:?}"),
    }
    assert_eq!(asked.len(), 3);
}

#[test]
fn detection_repeats_itself() {
    let world = two_releases(&["v0.1.0"]);
    let (asked_first, first) = detect(&settings("v", Some("demo"), false), &world);
    let (asked_second, second) = detect(&settings("v", Some("demo"), false), &world);
    assert_eq!(first.unwrap(), second.unwrap());
    assert_eq!(asked_first, asked_second);
    let world = two_releases(&[]);
    let (_, first) = detect(&settings("", None, true), &world);
    let (_, second) = detect(&settings("", None, true), &world);
    let first = first.unwrap();
    assert_eq!(first.versions.len(), 2);
    assert_eq!(first, second.unwrap());
}

#[test]
fn report_follows_publication_not_the_changelog() {
    let world = World {
        tags: vec![],
        changelog: "## 0.3.0\n\n- c\n\n## 0.2.0\n\n- b\n\n## 0.1.0\n\n- a\n".to_string(),
        listing: vec![published("0.1.0", 20), published("0.2.0", 30), published("0.3.0", 10)],
        archives: vec![
            (address("0.1.0"), archive_with_commit("aaa")),
            (address("0.2.0"), archive_with_commit("bbb")),
            (address("0.3.0"), archive_with_commit("ccc")),
        ],
    };
    let (_, outcome) = detect(&settings("v", None, false), &world);
    let report = outcome.unwrap();
    assert_eq!(versions_of(&report), vec!["0.3.0", "0.1.0", "0.2.0"]);
    let commits: Vec<&str> = report.versions.iter().map(|record| record.commit_hash.as_str()).collect();
    assert_eq!(commits, vec!["ccc", "aaa", "bbb"]);
}

#[test]
fn releases_of_one_time_keep_the_order_of_the_changelog() {
    let mut world = World {
        tags: vec![],
        changelog: "## 0.3.0\n\n- c\n\n## 0.2.0\n\n- b\n\n## 0.1.0\n\n- a\n".to_string(),
        listing: vec![published("0.1.0", 5), published("0.2.0", 5), published("0.3.0", 5)],
        archives: vec![
            (address("0.1.0"), archive_with_commit("aaa")),
            (address("0.2.0"), archive_with_commit("bbb")),
            (address("0.3.0"), archive_with_commit("ccc")),
        ],
    };
    let (_, outcome) = detect(&settings("v", None, false), &world);
    assert_eq!(versions_of(&outcome.unwrap()), vec!["0.3.0", "0.2.0", "0.1.0"]);
    world.listing[1].created_at = Timestamp::new(4, 999_999_999);
    let (_, outcome) = detect(&settings("v", None, false), &world);
    assert_eq!(versions_of(&outcome.unwrap()), vec!["0.2.0", "0.3.0", "0.1.0"]);
}

#[test]
fn nanoseconds_break_ties_between_seconds() {
    let mut world = two_releases(&[]);
    world.listing[0].created_at = Timestamp::new(1_000, 1);
    world.listing[1].created_at = Timestamp::new(1_000, 2);
    let (_, outcome) = detect(&settings("v", None, false), &world);
    assert_eq!(versions_of(&outcome.unwrap()), vec!["0.2.0", "0.1.0"]);
    world.listing[0].created_at = Timestamp::new(-5, 0);
    world.listing[1].created_at = Timestamp::new(-6, 999_999_999);
    let (_, outcome) = detect(&settings("v", None, false), &world);
    assert_eq!(versions_of(&outcome.unwrap()), vec!["0.1.0", "0.2.0"]);
}

#[test]
fn last_listing_of_a_version_counts() {
    let mut world = two_releases(&[]);
    world.listing = vec![
        PublishedVersion {
            num: "0.1.0".to_string(),
            created_at: Timestamp::new(1, 0),
            dl_path: "/old/0.1.0".to_string(),
        },
        published("0.2.0", 2_000),
        published("0.1.0", 3_000),
    ];
    let (asked, outcome) = detect(&settings("v", None, false), &world);
    let report = outcome.unwrap();
    assert_eq!(versions_of(&report), vec!["0.2.0", "0.1.0"]);
    assert_eq!(report.versions[1].created_at, Timestamp::new(3_000, 0));
    assert!(asked.contains(&Request::Archive(address("0.1.0"))));
    assert!(!asked.contains(&Request::Archive("https://crates.io/old/0.1.0".to_string())));
}

#[test]
fn title_prefix_is_joined_by_one_space() {
    let (_, outcome) = detect(&settings("v", Some("demo"), false), &two_releases(&[]));
    let report = outcome.unwrap();
    assert_eq!(report.versions[0].title, "demo 0.1.0 - 2024-01-01");
    assert_eq!(report.versions[1].title, "demo 0.2.0 - 2024-02-01");
    let (_, outcome) = detect(&settings("v", Some(""), false), &two_releases(&[]));
    assert_eq!(outcome.unwrap().versions[0].title, " 0.1.0 - 2024-01-01");
}

#[test]
fn title_and_tag_are_formed_from_their_parts() {
    let with_prefix = settings("release/", Some("My crate"), false);
    assert_eq!(with_prefix.tag_for(&"1.2.3".to_string()), "release/1.2.3");
    assert_eq!(with_prefix.title_for(&"[1.2.3] - today".to_string()), "My crate [1.2.3] - today");
    let bare = settings("", None, false);
    assert_eq!(bare.tag_for(&"1.2.3".to_string()), "1.2.3");
    assert_eq!(bare.title_for(&"[1.2.3] - today".to_string()), "[1.2.3] - today");
    assert_eq!(bare.title_for(&String::new()), "");
}

#[test]
fn changelog_is_read_as_the_parser_reads_it() {
    let text = "# Changelog\n\n## [Unreleased]\n\n## [1.0.0] - 2024-03-01\n\n### Added\n\n- a thing\n\n## [0.9.0-rc.1] - 2024-02-01\n\n- almost\n\n[1.0.0]: https://example.com\n";
    let state = Detection::new(Awaiting::Changelog);
    let progress = settings("v", None, true).run(state, Reply::Changelog(text.to_string())).unwrap();
    match progress {
        Progress::Pending(state, request) => {
            assert_eq!(request, Request::CrateVersions("demo".to_string()));
            assert_eq!(state.awaiting, Awaiting::Versions);
            assert_eq!(
                state.pending,
                vec![
                    Candidate {
                        entry: ChangelogEntry::new(
                            "1.0.0".to_string(),
                            "[1.0.0] - 2024-03-01".to_string(),
                            "### Added\n\n- a thing".to_string(),
                        ),
                        tagname: "v1.0.0".to_string(),
                    },
                    Candidate {
                        entry: ChangelogEntry::new(
                            "0.9.0-rc.1".to_string(),
                            "[0.9.0-rc.1] - 2024-02-01".to_string(),
                            "- almost\n\n[1.0.0]: https://example.com".to_string(),
                        ),
                        tagname: "v0.9.0-rc.1".to_string(),
                    },
                ]
            );
        }
        other => panic!("{other:?}"),
    }
}

#[test]
fn reply_that_is_not_awaited_is_an_error() {
    let config = settings("v", None, false);
    let replies = || {
        vec![
            Reply::ExistingTags(vec![]),
            Reply::Changelog(CHANGELOG.to_string()),
            Reply::CrateVersions(vec![published("0.1.0", 1)]),
            Reply::Archive(archive_with_commit("aaa")),
        ]
    };
    let phases = [Awaiting::Tags, Awaiting::Changelog, Awaiting::Versions, Awaiting::Archive];
    for (at, phase) in phases.iter().enumerate() {
        for (index, reply) in replies().into_iter().enumerate() {
            if index == at {
                continue;
            }
            let outcome = config.run(Detection::new(*phase), reply);
            assert!(matches!(outcome, Err(DetectError::UnexpectedReply)), "{phase:?} {index}");
        }
    }
    let outcome = config.run(Detection::new(Awaiting::Archive), Reply::Archive(archive_with_commit("aaa")));
    assert!(matches!(outcome, Err(DetectError::UnexpectedReply)));
}

#[test]
fn steps_can_be_taken_on_plain_values() {
    let config = settings("v", Some("demo"), false);
    let entries = vec![
        ChangelogEntry::new("Unreleased".to_string(), "Unreleased".to_string(), "- wip".to_string()),
        ChangelogEntry::new("0.2.0".to_string(), "Second".to_string(), "- b".to_string()),
        ChangelogEntry::new("0.1.0".to_string(), "First".to_string(), "- a".to_string()),
        ChangelogEntry::new("0.0.1".to_string(), "Zeroth".to_string(), String::new()),
    ];
    let mut state = Detection::new(Awaiting::Changelog);
    state.tags = vec!["v0.0.1".to_string()];
    let (state, request) = match config.plan(state, &entries).unwrap() {
        Progress::Pending(state, request) => (state, request),
        other => panic!("{other:?}"),
    };
    assert_eq!(request, Request::CrateVersions("demo".to_string()));
    assert_eq!(state.pending.len(), 2);
    let versions = vec![
        CrateVersion {
            name: "0.1.0".to_string(),
            created_at: Timestamp::new(10, 0),
            dl_url: "https://example.org/first".to_string(),
        },
        CrateVersion {
            name: "0.2.0".to_string(),
            created_at: Timestamp::new(20, 0),
            dl_url: "https://example.org/second".to_string(),
        },
    ];
    let (state, request) = match config.survey(state, versions).unwrap() {
        Progress::Pending(state, request) => (state, request),
        other => panic!("{other:?}"),
    };
    assert_eq!(request, Request::Archive("https://example.org/second".to_string()));
    assert_eq!(state.next, 0);
    let (state, request) = match config.resolve(state, Ok(Some("bbb".to_string()))).unwrap() {
        Progress::Pending(state, request) => (state, request),
        other => panic!("{other:?}"),
    };
    assert_eq!(request, Request::Archive("https://example.org/first".to_string()));
    assert_eq!(state.next, 1);
    assert_eq!(state.found.len(), 1);
    let report = match config.resolve(state, Ok(Some("aaa".to_string()))).unwrap() {
        Progress::Complete(report) => report,
        other => panic!("{other:?}"),
    };
    assert_eq!(
        report.versions,
        vec![
            VersionToTag {
                version: "0.1.0".to_string(),
                tagname: "v0.1.0".to_string(),
                commit_hash: "aaa".to_string(),
                created_at: Timestamp::new(10, 0),
                title: "demo First".to_string(),
                notes: "- a".to_string(),
            },
            VersionToTag {
                version: "0.2.0".to_string(),
                tagname: "v0.2.0".to_string(),
                commit_hash: "bbb".to_string(),
                created_at: Timestamp::new(20, 0),
                title: "demo Second".to_string(),
                notes: "- b".to_string(),
            },
        ]
    );
}

#[test]
fn steps_out_of_turn_are_errors() {
    let config = settings("v", None, false);
    assert!(matches!(
        config.plan(Detection::new(Awaiting::Tags), &vec![]),
        Err(DetectError::UnexpectedReply)
    ));
    assert!(matches!(
        config.survey(Detection::new(Awaiting::Changelog), vec![]),
        Err(DetectError::UnexpectedReply)
    ));
    assert!(matches!(
        config.resolve(Detection::new(Awaiting::Versions), Ok(None)),
        Err(DetectError::UnexpectedReply)
    ));
    assert!(matches!(
        config.resolve(Detection::new(Awaiting::Archive), Ok(None)),
        Err(DetectError::UnexpectedReply)
    ));
}

#[test]
fn start_asks_for_the_tags_only_where_they_count() {
    match settings("v", None, false).start() {
        Progress::Pending(state, request) => {
            assert_eq!(request, Request::ExistingTags);
            assert_eq!(state.awaiting, Awaiting::Tags);
        }
        other => panic!("{other:?}"),
    }
    match settings("v", None, true).start() {
        Progress::Pending(state, request) => {
            assert_eq!(request, Request::Changelog("CHANGELOG.md".to_string()));
            assert_eq!(state.awaiting, Awaiting::Changelog);
            assert!(state.tags.is_empty());
        }
        other => panic!("{other:?}"),
    }
}

#[test]
fn tag_is_among_the_tags_only_when_it_is_one_of_them() {
    let tags = vec!["v0.1.0".to_string(), "v0.2.0".to_string(), "v0.1.0".to_string()];
    assert!(has_tag(&tags, &"v0.1.0".to_string()));
    assert!(has_tag(&tags, &"v0.2.0".to_string()));
    assert!(!has_tag(&tags, &"v0.3.0".to_string()));
    assert!(!has_tag(&tags, &"v0.1".to_string()));
    assert!(!has_tag(&tags, &"V0.1.0".to_string()));
    assert!(!has_tag(&tags, &String::new()));
    assert!(!has_tag(&vec![], &"v0.1.0".to_string()));
    assert!(has_tag(&vec![String::new()], &String::new()));
}

#[test]
fn advancing_passes_over_what_the_registry_lacks() {
    let candidate = |version: &str| Candidate {
        entry: ChangelogEntry::new(version.to_string(), version.to_string(), String::new()),
        tagname: format!("v{version}"),
    };
    let mut state = Detection::new(Awaiting::Archive);
    state.pending = vec![candidate("0.4.0"), candidate("0.3.0"), candidate("0.2.0"), candidate("0.1.0")];
    state.versions = vec![CrateVersion {
        name: "0.2.0".to_string(),
        created_at: Timestamp::new(2, 0),
        dl_url: "https://example.org/0.2.0".to_string(),
    }];
    let state = match state.advance() {
        Progress::Pending(state, request) => {
            assert_eq!(request, Request::Archive("https://example.org/0.2.0".to_string()));
            state
        }
        other => panic!("{other:?}"),
    };
    assert_eq!(state.next, 2);
    assert_eq!(state.awaiting, Awaiting::Archive);
    assert_eq!(
        state.skipped,
        vec![
            Skipped { version: "0.4.0".to_string(), reason: SkipReason::NotPublished },
            Skipped { version: "0.3.0".to_string(), reason: SkipReason::NotPublished },
        ]
    );
    let config = settings("v", None, false);
    match config.resolve(state, Ok(None)).unwrap() {
        Progress::Complete(report) => {
            assert!(report.versions.is_empty());
            assert_eq!(
                report.skipped,
                vec![
                    Skipped { version: "0.4.0".to_string(), reason: SkipReason::NotPublished },
                    Skipped { version: "0.3.0".to_string(), reason: SkipReason::NotPublished },
                    Skipped { version: "0.2.0".to_string(), reason: SkipReason::NoCommitHash },
                    Skipped { version: "0.1.0".to_string(), reason: SkipReason::NotPublished },
                ]
            );
        }
        other => panic!("{other:?}"),
    }
}

#[test]
fn advancing_at_the_end_gives_the_report_in_order() {
    let record = |version: &str, seconds: i64| VersionToTag {
        version: version.to_string(),
        tagname: format!("v{version}"),
        commit_hash: "c".to_string(),
        created_at: Timestamp::new(seconds, 0),
        title: String::new(),
        notes: String::new(),
    };
    let mut state = Detection::new(Awaiting::Archive);
    state.found = vec![record("0.2.0", 20), record("0.1.0", 10)];
    match state.advance() {
        Progress::Complete(report) => {
            assert_eq!(versions_of(&report), vec!["0.1.0", "0.2.0"]);
            assert!(report.skipped.is_empty());
        }
        other => panic!("{other:?}"),
    }
}

#[test]
fn archive_error_ends_the_detection_when_passed_as_a_value() {
    let mut state = Detection::new(Awaiting::Archive);
    state.pending = vec![Candidate {
        entry: ChangelogEntry::new("0.1.0".to_string(), "0.1.0".to_string(), String::new()),
        tagname: "v0.1.0".to_string(),
    }];
    state.versions = vec![CrateVersion {
        name: "0.1.0".to_string(),
        created_at: Timestamp::new(1, 0),
        dl_url: "https://example.org/0.1.0".to_string(),
    }];
    let broken = std::io::Error::new(std::io::ErrorKind::UnexpectedEof, "cut short");
    let outcome = settings("v", None, false).resolve(state, Err(ArchiveError::Read(broken)));
    match outcome {
        Err(DetectError::Archive(error)) => assert_eq!(error.fault(), ArchiveFault::Unreadable),
        other => panic!("{other:?}"),
    }
}
