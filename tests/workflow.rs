use skills_man::orchestrate::{
    batch_entry, installed_entry, members_to_update, orphan_directories, plan_single_install,
    record_checksum, refresh_source, skill_needs_update, source_conflict, sync_action, sync_source,
    uninstall_skill, BatchMember, BatchProgress, SingleInstallPlan, SyncAction,
};
use skills_man::resolve::{QueryOutcome, Resolution, ResolveAction};
use skills_man::sync::{SyncSession, SyncStep};
use skills_man::batch::{BatchInstall, BatchStep};
use skills_man::single::{SingleInstall, SingleStep};
use skills_man::topology::{detect_skill_type, has_skill_manifest, subdirectory_names};
use skills_man::{
    ContentItem, EntryKind, GitHubUrl, GitHubUrlSpec, SkillDetectionResult, SkillEntry,
    SkillsConfig, SkillsError,
};

fn item(name: &str, kind: EntryKind) -> ContentItem {
    ContentItem { name: name.to_string(), kind }
}

fn entry(url: &str, commit: &str, checksum: &str) -> SkillEntry {
    SkillEntry {
        source_url: url.to_string(),
        slug: "acme/tools".to_string(),
        path: "skills/foo".to_string(),
        git_ref: "main".to_string(),
        commit: commit.to_string(),
        checksum: checksum.to_string(),
    }
}

const FOO_URL: &str = "https://github.com/acme/tools/tree/main/skills/foo";

#[test]
fn single_skill_install_records_ref_path_and_name() {
    let spec = GitHubUrlSpec::parse(FOO_URL).unwrap();
    let (mut res, first) = Resolution::start(&spec);
    assert!(matches!(&first, ResolveAction::Query(u) if u.git_ref == "main" && u.path == "skills/foo"));
    let (location, commit) = match res.advance(QueryOutcome::Confirmed("c1".to_string())) {
        ResolveAction::Resolved { location, commit } => (location, commit),
        _ => panic!("not resolved"),
    };
    let listing = vec![item("SKILL.md", EntryKind::File), item("notes.txt", EntryKind::File)];
    assert!(matches!(detect_skill_type(&listing, &vec![], &location.path), Ok(SkillDetectionResult::Single)));

    let name = spec.directory_name();
    let mut config = SkillsConfig::new();
    let plan = plan_single_install(&config, name, FOO_URL, false, &commit, &None);
    assert_eq!(plan, SingleInstallPlan::Download);
    config.insert(name.to_string(), installed_entry(FOO_URL, &location, &commit, "sha256:aa".to_string()));

    let recorded = config.get("foo").unwrap();
    assert_eq!(name, "foo");
    assert_eq!(recorded.path, "skills/foo");
    assert_eq!(recorded.git_ref, "main");
    assert_eq!(recorded.slug, "acme/tools");
    assert_eq!(recorded.commit, "c1");
    assert_eq!(recorded.source_url, FOO_URL);
}

#[test]
fn reinstall_with_same_input_is_noop() {
    let location = GitHubUrl {
        slug: "acme/tools".to_string(),
        git_ref: "main".to_string(),
        path: "skills/foo".to_string(),
    };
    let mut config = SkillsConfig::new();
    config.insert("foo".to_string(), installed_entry(FOO_URL, &location, "c1", "sha256:aa".to_string()));
    let plan = plan_single_install(&config, "foo", FOO_URL, true, "c1", &Some("sha256:aa".to_string()));
    assert_eq!(plan, SingleInstallPlan::UpToDate);
}

#[test]
fn reinstall_decisions() {
    let mut config = SkillsConfig::new();
    config.insert("foo".to_string(), entry(FOO_URL, "c1", "sha256:aa"));
    let ok = Some("sha256:aa".to_string());
    // The upstream commit moved: download although the content is unchanged.
    assert_eq!(plan_single_install(&config, "foo", FOO_URL, true, "c2", &ok), SingleInstallPlan::Download);
    assert_eq!(plan_single_install(&config, "foo", FOO_URL, false, "c1", &ok), SingleInstallPlan::Download);
    assert_eq!(
        plan_single_install(&config, "foo", FOO_URL, true, "c1", &Some("sha256:bb".to_string())),
        SingleInstallPlan::Download
    );
    assert_eq!(plan_single_install(&config, "foo", FOO_URL, true, "c1", &None), SingleInstallPlan::Download);
    let other = "https://github.com/acme/tools/tree/main/skills/foo/";
    assert_eq!(plan_single_install(&config, "foo", other, true, "c1", &ok), SingleInstallPlan::RefreshSource);
    assert!(source_conflict(&config, "foo", other));
    assert!(!source_conflict(&config, "foo", FOO_URL));
    assert!(!source_conflict(&config, "bar", other));

    refresh_source(&mut config, "foo", other);
    let e = config.get("foo").unwrap();
    assert_eq!(e.source_url, other);
    assert_eq!(e.checksum, "sha256:aa");
    assert!(skill_needs_update(&config, "bar", true, "c1", &ok));
    assert!(!skill_needs_update(&config, "foo", true, "c1", &ok));
}

#[test]
fn batch_install_of_container() {
    let listing = vec![
        item("foo", EntryKind::Dir),
        item("README.md", EntryKind::File),
        item("bar", EntryKind::Dir),
        item("docs", EntryKind::Dir),
    ];
    assert!(!has_skill_manifest(&listing));
    let names = subdirectory_names(&listing);
    assert_eq!(names, vec!["foo", "bar", "docs"]);
    let children = vec![
        vec![item("SKILL.md", EntryKind::File)],
        vec![item("skill.md", EntryKind::File), item("x", EntryKind::Dir)],
        vec![item("index.md", EntryKind::File)],
    ];
    let members = match detect_skill_type(&listing, &children, "skills") {
        Ok(SkillDetectionResult::Batch(m)) => m,
        other => panic!("unexpected {other:?}"),
    };
    assert_eq!(members, vec!["foo", "bar"]);

    let location = GitHubUrl {
        slug: "acme/tools".to_string(),
        git_ref: "main".to_string(),
        path: "skills".to_string(),
    };
    let base = "https://github.com/acme/tools/tree/main/skills";
    let mut config = SkillsConfig::new();
    for m in &members {
        config.insert(m.clone(), batch_entry(base, &location, m, "c1", format!("sha256:{m}")));
    }
    let mut names = config.names();
    names.sort();
    assert_eq!(names, vec!["bar", "foo"]);
    let foo = config.get("foo").unwrap();
    assert_eq!(foo.source_url, "https://github.com/acme/tools/tree/main/skills/foo");
    assert_eq!(foo.path, "skills/foo");
    assert_eq!(config.get("bar").unwrap().path, "skills/bar");
}

#[test]
fn container_without_skills() {
    let listing = vec![item("docs", EntryKind::Dir), item("a.txt", EntryKind::File)];
    let children = vec![vec![item("index.md", EntryKind::File)]];
    assert!(matches!(
        detect_skill_type(&listing, &children, "skills"),
        Err(SkillsError::NoSkillsFound(p)) if p == "skills"
    ));
}

#[test]
fn batch_members_judged_independently() {
    let mut config = SkillsConfig::new();
    config.insert("foo".to_string(), entry("u/foo", "c1", "sha256:foo"));
    config.insert("bar".to_string(), entry("u/bar", "c1", "sha256:bar"));
    let members = vec![
        BatchMember { name: "foo".to_string(), dir_exists: true, local_checksum: Some("sha256:foo".to_string()) },
        BatchMember { name: "bar".to_string(), dir_exists: true, local_checksum: Some("edited".to_string()) },
        BatchMember { name: "baz".to_string(), dir_exists: false, local_checksum: None },
    ];
    assert_eq!(members_to_update(&config, &members, "c1"), vec!["bar", "baz"]);
    assert_eq!(members_to_update(&config, &members, "c2"), vec!["foo", "bar", "baz"]);
}

#[test]
fn batch_progress_reports_partial_failure() {
    let mut p = BatchProgress::new();
    p.record_success();
    p.record_failure("bar".to_string());
    p.record_success();
    match p.finish() {
        Err(SkillsError::BatchInstallationFailed { successful, failed }) => {
            assert_eq!(successful, 2);
            assert_eq!(failed, vec!["bar"]);
        }
        other => panic!("unexpected {other:?}"),
    }
    let mut q = BatchProgress::new();
    q.record_success();
    assert!(matches!(q.finish(), Ok(1)));
}

#[test]
fn sync_asks_before_overwriting_local_edits() {
    let mut config = SkillsConfig::new();
    config.insert("foo".to_string(), entry(FOO_URL, "c1", "sha256:aa"));
    let e = config.get("foo").unwrap();
    assert_eq!(sync_action(e, true, &Some("sha256:edited".to_string())), SyncAction::AskOverwrite);
    assert_eq!(sync_action(e, true, &Some("sha256:aa".to_string())), SyncAction::UpToDate);
    // Declining leaves the record as it was.
    assert_eq!(config.get("foo").unwrap().checksum, "sha256:aa");
}

#[test]
fn sync_downloads_missing_directory_without_asking() {
    let mut config = SkillsConfig::new();
    config.insert("baz".to_string(), entry("u/baz", "c1", "sha256:aa"));
    let e = config.get("baz").unwrap();
    assert_eq!(sync_action(e, false, &None), SyncAction::Download);
    assert_eq!(sync_action(e, false, &Some("sha256:aa".to_string())), SyncAction::Download);
    assert_eq!(sync_action(e, true, &None), SyncAction::Download);
    let src = sync_source(e);
    assert_eq!(src.slug, "acme/tools");
    assert_eq!(src.git_ref, "main");
    assert_eq!(src.path, "skills/foo");
    record_checksum(&mut config, "baz", "sha256:new".to_string());
    assert_eq!(config.get("baz").unwrap().checksum, "sha256:new");
    assert_eq!(config.get("baz").unwrap().commit, "c1");
}

#[test]
fn sync_removes_unrecorded_directories() {
    let mut config = SkillsConfig::new();
    config.insert("foo".to_string(), entry("u", "c", "s"));
    let dirs = vec!["foo".to_string(), "old".to_string(), ".download.tmp".to_string(), "x".to_string()];
    assert_eq!(orphan_directories(&config, &dirs), vec!["old", "x"]);
}

#[test]
fn uninstall_of_unknown_name_removes_nothing() {
    let mut config = SkillsConfig::new();
    config.insert("foo".to_string(), entry("u", "c", "s"));
    assert!(!uninstall_skill(&mut config, "ghost", false));
    assert!(config.contains("foo"));
    assert!(uninstall_skill(&mut config, "ghost", true));
    assert!(uninstall_skill(&mut config, "foo", false));
    assert!(!config.contains("foo"));
    assert!(config.is_empty());
    assert!(!uninstall_skill(&mut SkillsConfig::new(), "foo", false));
}

#[test]
fn manifest_insert_get_remove() {
    let mut config = SkillsConfig::new();
    assert!(config.is_empty());
    assert!(config.get("a").is_none());
    config.insert("a".to_string(), entry("u1", "c", "s1"));
    config.insert("b".to_string(), entry("u2", "c", "s2"));
    config.insert("a".to_string(), entry("u3", "c", "s3"));
    assert_eq!(config.names(), vec!["a", "b"]);
    assert_eq!(config.get("a").unwrap().source_url, "u3");
    assert!(config.remove("a"));
    assert!(!config.remove("a"));
    assert_eq!(config.names(), vec!["b"]);
}

#[test]
fn sync_session_declined_overwrite_keeps_local_edit() {
    let mut config = SkillsConfig::new();
    config.insert("foo".to_string(), entry(FOO_URL, "c1", "sha256:aa"));
    let (mut session, step) = SyncSession::start(config);
    assert!(matches!(&step, SyncStep::Inspect(n) if n == "foo"));
    let step = session.observed(true, Some("sha256:edited".to_string()));
    assert!(matches!(&step, SyncStep::Ask(n) if n == "foo"));
    let step = session.answered(false);
    assert!(matches!(step, SyncStep::Save));
    assert_eq!(session.config.get("foo").unwrap().checksum, "sha256:aa");
}

#[test]
fn sync_session_redownloads_deleted_skill_without_asking() {
    let mut config = SkillsConfig::new();
    config.insert("baz".to_string(), entry("u/baz", "c1", "sha256:aa"));
    let (mut session, _) = SyncSession::start(config);
    match session.observed(false, None) {
        SyncStep::Fetch { name, source } => {
            assert_eq!(name, "baz");
            assert_eq!(source.slug, "acme/tools");
            assert_eq!(source.git_ref, "main");
            assert_eq!(source.path, "skills/foo");
        }
        _ => panic!("expected a fetch"),
    }
    let step = session.fetched(Ok("sha256:new".to_string()));
    assert!(matches!(step, SyncStep::Save));
    assert_eq!(session.config.get("baz").unwrap().checksum, "sha256:new");
}

#[test]
fn sync_session_walks_every_skill() {
    let (_, step) = SyncSession::start(SkillsConfig::new());
    assert!(matches!(step, SyncStep::Done));

    let mut config = SkillsConfig::new();
    config.insert("a".to_string(), entry("u/a", "c1", "sa"));
    config.insert("b".to_string(), entry("u/b", "c1", "sb"));
    let (mut session, step) = SyncSession::start(config);
    assert!(matches!(&step, SyncStep::Inspect(n) if n == "a"));
    let step = session.observed(true, Some("sa".to_string()));
    assert!(matches!(&step, SyncStep::Inspect(n) if n == "b"));
    let step = session.observed(true, Some("changed".to_string()));
    assert!(matches!(&step, SyncStep::Ask(n) if n == "b"));
    let step = session.answered(true);
    assert!(matches!(&step, SyncStep::Fetch { name, .. } if name == "b"));
    let step = session.fetched(Err(SkillsError::RateLimited));
    assert!(matches!(step, SyncStep::Save));
    assert_eq!(session.config.get("b").unwrap().checksum, "sb");
}

#[test]
fn batch_session_installs_members_independently() {
    let location = GitHubUrl {
        slug: "acme/tools".to_string(),
        git_ref: "main".to_string(),
        path: "skills".to_string(),
    };
    let base = "https://github.com/acme/tools/tree/main/skills";
    let members = vec![
        BatchMember { name: "foo".to_string(), dir_exists: false, local_checksum: None },
        BatchMember { name: "bar".to_string(), dir_exists: false, local_checksum: None },
        BatchMember { name: "qux".to_string(), dir_exists: false, local_checksum: None },
    ];
    let (mut batch, step) = BatchInstall::start(SkillsConfig::new(), base, location, "c1", &members);
    match step {
        BatchStep::Confirm(names) => assert_eq!(names, vec!["foo", "bar", "qux"]),
        _ => panic!("expected a confirmation"),
    }
    assert!(matches!(batch.confirmed(true), BatchStep::Download));
    let step = batch.downloaded(Ok(())).unwrap();
    assert!(matches!(&step, BatchStep::Install(n) if n == "foo"));
    let step = batch.installed(Ok("sha256:foo".to_string()));
    assert!(matches!(&step, BatchStep::Install(n) if n == "bar"));
    let step = batch.installed(Err(SkillsError::PathNotFound("skills/bar".to_string())));
    assert!(matches!(&step, BatchStep::Install(n) if n == "qux"));
    let step = batch.installed(Ok("sha256:qux".to_string()));
    assert!(matches!(step, BatchStep::Finished));

    let foo = batch.config.get("foo").unwrap();
    assert_eq!(foo.path, "skills/foo");
    assert_eq!(foo.source_url, "https://github.com/acme/tools/tree/main/skills/foo");
    assert_eq!(foo.checksum, "sha256:foo");
    assert!(batch.config.get("bar").is_none());
    assert_eq!(batch.config.get("qux").unwrap().path, "skills/qux");
    match batch.finish() {
        Err(SkillsError::BatchInstallationFailed { successful, failed }) => {
            assert_eq!(successful, 2);
            assert_eq!(failed, vec!["bar"]);
        }
        other => panic!("unexpected {other:?}"),
    }
}

#[test]
fn batch_session_with_everything_current() {
    let location = GitHubUrl {
        slug: "acme/tools".to_string(),
        git_ref: "main".to_string(),
        path: "skills".to_string(),
    };
    let mut config = SkillsConfig::new();
    config.insert("foo".to_string(), entry("u/foo", "c1", "sha256:foo"));
    let members = vec![BatchMember {
        name: "foo".to_string(),
        dir_exists: true,
        local_checksum: Some("sha256:foo".to_string()),
    }];
    let (batch, step) = BatchInstall::start(config, "u", location, "c1", &members);
    assert!(matches!(step, BatchStep::AllUpToDate(1)));
    assert!(matches!(batch.confirmed(false), BatchStep::Cancelled));
}

#[test]
fn batch_session_download_failure_ends_batch() {
    let location = GitHubUrl {
        slug: "acme/tools".to_string(),
        git_ref: "main".to_string(),
        path: "skills".to_string(),
    };
    let members = vec![BatchMember { name: "foo".to_string(), dir_exists: false, local_checksum: None }];
    let (batch, _) = BatchInstall::start(SkillsConfig::new(), "u", location, "c1", &members);
    assert!(matches!(batch.downloaded(Err(SkillsError::Forbidden)), Err(SkillsError::Forbidden)));
}

#[test]
fn single_session_install_then_reinstall_is_noop() {
    let spec = GitHubUrlSpec::parse(FOO_URL).unwrap();
    let (mut res, _) = Resolution::start(&spec);
    let (location, commit) = match res.advance(QueryOutcome::Confirmed("c1".to_string())) {
        ResolveAction::Resolved { location, commit } => (location, commit),
        _ => panic!("not resolved"),
    };
    let (mut install, step) =
        SingleInstall::start(SkillsConfig::new(), spec.directory_name(), FOO_URL, location.duplicate(), &commit);
    assert_eq!(step, SingleStep::Inspect);
    assert_eq!(install.observed(false, None), SingleStep::Download);
    assert_eq!(install.downloaded(Ok("sha256:aa".to_string())).unwrap(), SingleStep::Save);
    let recorded = install.config.get("foo").unwrap();
    assert_eq!(recorded.path, "skills/foo");
    assert_eq!(recorded.git_ref, "main");
    assert_eq!(recorded.checksum, "sha256:aa");

    let (mut again, step) = SingleInstall::start(install.config, "foo", FOO_URL, location, &commit);
    assert_eq!(step, SingleStep::Inspect);
    assert_eq!(again.observed(true, Some("sha256:aa".to_string())), SingleStep::UpToDate);
    assert_eq!(again.config.get("foo").unwrap().checksum, "sha256:aa");
}

#[test]
fn single_session_other_source_needs_confirmation() {
    let mut config = SkillsConfig::new();
    config.insert("foo".to_string(), entry("https://github.com/other/repo/tree/main/foo", "c1", "sha256:aa"));
    let location = GitHubUrl {
        slug: "acme/tools".to_string(),
        git_ref: "main".to_string(),
        path: "skills/foo".to_string(),
    };
    let (mut install, step) = SingleInstall::start(config, "foo", FOO_URL, location, "c1");
    assert_eq!(step, SingleStep::ConfirmSource);
    assert_eq!(install.confirmed(false), SingleStep::Cancelled);
    assert_eq!(install.confirmed(true), SingleStep::Inspect);
    assert_eq!(install.observed(true, Some("sha256:aa".to_string())), SingleStep::SaveSource);
    assert_eq!(install.config.get("foo").unwrap().source_url, FOO_URL);
    assert!(matches!(install.downloaded(Err(SkillsError::MissingSkillManifest)), Err(SkillsError::MissingSkillManifest)));
}
