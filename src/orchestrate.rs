//! The decisions of the install, sync and uninstall workflows. The caller
//! observes the disk and the remote service, hands the observations in, and
//! carries out what is decided.

use vstd::prelude::*;
use vstd::string::*;

use crate::error::SkillsError;
use crate::manifest::{EntryModel, SkillEntry, SkillsConfig};
use crate::text::views;
use crate::url::{GitHubUrl, Location};

verus! {

/// Whether a skill must be (re)downloaded: it is not recorded, its directory
/// is missing, the upstream commit moved, or its checksum could not be taken
/// or differs from the recorded one.
pub open spec fn needs_update_model(
    cfg: Map<Seq<char>, EntryModel>,
    name: Seq<char>,
    dir_exists: bool,
    commit: Seq<char>,
    local_checksum: Option<Seq<char>>,
) -> bool {
    ||| !cfg.dom().contains(name)
    ||| !dir_exists
    ||| commit != cfg[name].commit
    ||| local_checksum is None
    ||| local_checksum->0 != cfg[name].checksum
}

/// The view of an optional text.
pub open spec fn opt_view(s: Option<String>) -> Option<Seq<char>> {
    match s {
        Some(t) => Some(t@),
        None => None,
    }
}

/// Whether the skill `name` must be downloaded, given whether its directory
/// exists, the commit its ref points to upstream now, and the checksum of
/// its directory (`None` when it could not be taken).
pub fn skill_needs_update(
    config: &SkillsConfig,
    name: &str,
    dir_exists: bool,
    commit: &str,
    local_checksum: &Option<String>,
) -> (r: bool)
    requires
        config.wf(),
    ensures
        r == needs_update_model(config@, name@, dir_exists, commit@, opt_view(*local_checksum)),
{
    let existing = match config.get(name) {
        Some(e) => e,
        None => return true,
    };
    if !dir_exists {
        return true;
    }
    let commit_now = String::from_str(commit);
    if commit_now != existing.commit {
        return true;
    }
    match local_checksum {
        Some(c) => *c != existing.checksum,
        None => true,
    }
}

/// What installing a single skill has to do.
#[derive(Debug, Clone, Copy, PartialEq, Eq, Structural)]
pub enum SingleInstallPlan {
    /// Nothing: the installed copy is current.
    UpToDate,
    /// The installed copy is current; only the recorded source URL changes.
    RefreshSource,
    /// Download, validate and swap in the skill, then record it.
    Download,
}

/// The plan for installing `name` from `source_url`.
pub open spec fn single_plan_model(
    cfg: Map<Seq<char>, EntryModel>,
    name: Seq<char>,
    source_url: Seq<char>,
    dir_exists: bool,
    commit: Seq<char>,
    local_checksum: Option<Seq<char>>,
) -> SingleInstallPlan {
    if needs_update_model(cfg, name, dir_exists, commit, local_checksum) {
        SingleInstallPlan::Download
    } else if cfg[name].source_url == source_url {
        SingleInstallPlan::UpToDate
    } else {
        SingleInstallPlan::RefreshSource
    }
}

/// Whether installing `name` from `source_url` would replace a skill of
/// that name installed from another source (which needs confirmation).
pub fn source_conflict(config: &SkillsConfig, name: &str, source_url: &str) -> (r: bool)
    requires
        config.wf(),
    ensures
        r == (config@.dom().contains(name@) && config@[name@].source_url != source_url@),
{
    match config.get(name) {
        Some(e) => e.source_url != String::from_str(source_url),
        None => false,
    }
}

/// What installing the single skill `name` from `source_url` has to do,
/// given whether its directory exists, the commit its ref points to now and
/// the checksum of its directory. A moved commit forces a download even when
/// the content is unchanged.
pub fn plan_single_install(
    config: &SkillsConfig,
    name: &str,
    source_url: &str,
    dir_exists: bool,
    commit: &str,
    local_checksum: &Option<String>,
) -> (r: SingleInstallPlan)
    requires
        config.wf(),
    ensures
        r == single_plan_model(
            config@,
            name@,
            source_url@,
            dir_exists,
            commit@,
            opt_view(*local_checksum),
        ),
{
    if skill_needs_update(config, name, dir_exists, commit, local_checksum) {
        SingleInstallPlan::Download
    } else if source_conflict(config, name, source_url) {
        SingleInstallPlan::RefreshSource
    } else {
        SingleInstallPlan::UpToDate
    }
}

/// The record of a skill installed from `source_url` at `location`, whose
/// ref points to `commit` and whose installed directory has `checksum`.
pub fn installed_entry(source_url: &str, location: &GitHubUrl, commit: &str, checksum: String) -> (r:
    SkillEntry)
    ensures
        r@ == (EntryModel {
            source_url: source_url@,
            slug: location.slug@,
            path: location.path@,
            git_ref: location.git_ref@,
            commit: commit@,
            checksum: checksum@,
        }),
{
    SkillEntry {
        source_url: String::from_str(source_url),
        slug: location.slug.clone(),
        path: location.path.clone(),
        git_ref: location.git_ref.clone(),
        commit: String::from_str(commit),
        checksum,
    }
}

/// Points the record of `name` at a new source URL, keeping the rest.
pub fn refresh_source(config: &mut SkillsConfig, name: &str, source_url: &str)
    requires
        old(config).wf(),
    ensures
        final(config).wf(),
        old(config)@.dom().contains(name@) ==> final(config)@ == old(config)@.insert(
            name@,
            EntryModel { source_url: source_url@, ..old(config)@[name@] },
        ),
        !old(config)@.dom().contains(name@) ==> final(config)@ == old(config)@,
{
    let updated = match config.get(name) {
        Some(e) => {
            let mut u = e.duplicate();
            u.source_url = String::from_str(source_url);
            u
        },
        None => return,
    };
    config.insert(String::from_str(name), updated);
}

/// Installing is idempotent: once a skill has been recorded from a download,
/// installing it again from the same URL, with its directory in place, the
/// same upstream commit and the same content, downloads nothing and changes
/// nothing.
pub proof fn lemma_reinstall_is_noop(
    cfg: Map<Seq<char>, EntryModel>,
    name: Seq<char>,
    entry: EntryModel,
)
    ensures
        single_plan_model(
            cfg.insert(name, entry),
            name,
            entry.source_url,
            true,
            entry.commit,
            Some(entry.checksum),
        ) == SingleInstallPlan::UpToDate,
{
}

/// What was observed locally of one member of a batch.
#[derive(Debug, Clone)]
pub struct BatchMember {
    pub name: String,
    pub dir_exists: bool,
    /// The checksum of its directory, `None` when it could not be taken.
    pub local_checksum: Option<String>,
}

/// Of the first `k` members, the names of those that must be downloaded.
pub open spec fn pending_members(
    cfg: Map<Seq<char>, EntryModel>,
    members: Seq<BatchMember>,
    commit: Seq<char>,
    k: int,
) -> Seq<Seq<char>>
    decreases k,
{
    if k <= 0 {
        Seq::empty()
    } else {
        let m = members[k - 1];
        let before = pending_members(cfg, members, commit, k - 1);
        if needs_update_model(cfg, m.name@, m.dir_exists, commit, opt_view(m.local_checksum)) {
            before.push(m.name@)
        } else {
            before
        }
    }
}

/// The names of the batch members that must be downloaded, in order; each
/// is judged on its own against the commit of the container.
pub fn members_to_update(config: &SkillsConfig, members: &Vec<BatchMember>, commit: &str) -> (r: Vec<
    String,
>)
    requires
        config.wf(),
    ensures
        views(r@) == pending_members(config@, members@, commit@, members@.len() as int),
{
    let mut r: Vec<String> = Vec::new();
    let mut i: usize = 0;
    proof {
        assert(views(r@) =~= Seq::<Seq<char>>::empty());
    }
    while i < members.len()
        invariant
            config.wf(),
            i <= members@.len(),
            views(r@) == pending_members(config@, members@, commit@, i as int),
        decreases members.len() - i,
    {
        let m = &members[i];
        let ghost prev = r@;
        if skill_needs_update(config, m.name.as_str(), m.dir_exists, commit, &m.local_checksum) {
            r.push(m.name.clone());
            proof {
                assert(views(r@) =~= views(prev).push(m.name@));
            }
        }
        i = i + 1;
    }
    r
}

/// The record of batch member `member` of the container at `location`,
/// installed from `base_url`: its URL and path are the container's, then a
/// slash and its name.
pub fn batch_entry(
    base_url: &str,
    location: &GitHubUrl,
    member: &str,
    commit: &str,
    checksum: String,
) -> (r: SkillEntry)
    ensures
        r@ == (EntryModel {
            source_url: base_url@ + "/"@ + member@,
            slug: location.slug@,
            path: location.path@ + "/"@ + member@,
            git_ref: location.git_ref@,
            commit: commit@,
            checksum: checksum@,
        }),
{
    let mut source_url = String::from_str(base_url);
    source_url.append("/");
    source_url.append(member);
    let mut path = location.path.clone();
    path.append("/");
    path.append(member);
    SkillEntry {
        source_url,
        slug: location.slug.clone(),
        path,
        git_ref: location.git_ref.clone(),
        commit: String::from_str(commit),
        checksum,
    }
}

/// How a batch install is going: how many members went in, and which failed.
#[derive(Debug, Clone)]
pub struct BatchProgress {
    pub successful: usize,
    pub failed: Vec<String>,
}

impl BatchProgress {
    /// No member handled yet.
    pub fn new() -> (r: BatchProgress)
        ensures
            r.successful == 0,
            r.failed@.len() == 0,
    {
        BatchProgress { successful: 0, failed: Vec::new() }
    }

    /// One more member went in.
    pub fn record_success(&mut self)
        requires
            old(self).successful < usize::MAX,
        ensures
            final(self).successful == old(self).successful + 1,
            final(self).failed == old(self).failed,
    {
        self.successful = self.successful + 1;
    }

    /// This member failed; its siblings go on.
    pub fn record_failure(&mut self, name: String)
        ensures
            final(self).successful == old(self).successful,
            final(self).failed@ == old(self).failed@.push(name),
    {
        self.failed.push(name);
    }

    /// The batch's outcome: the number installed when none failed, else a
    /// partial failure naming the count installed and the failed members.
    pub fn finish(self) -> (r: Result<usize, SkillsError>)
        ensures
            self.failed@.len() == 0 ==> r == Ok::<usize, SkillsError>(self.successful),
            self.failed@.len() > 0 ==> r == Err::<usize, SkillsError>(
                SkillsError::BatchInstallationFailed {
                    successful: self.successful,
                    failed: self.failed,
                },
            ),
    {
        if self.failed.len() == 0 {
            Ok(self.successful)
        } else {
            Err(SkillsError::BatchInstallationFailed {
                successful: self.successful,
                failed: self.failed,
            })
        }
    }
}

/// What sync does with one recorded skill.
#[derive(Debug, Clone, Copy, PartialEq, Eq, Structural)]
pub enum SyncAction {
    /// The directory matches its recorded checksum.
    UpToDate,
    /// The directory is missing (or could not be read): download it.
    Download,
    /// The directory was edited locally: overwrite only if confirmed.
    AskOverwrite,
}

/// The sync action for a record, given whether its directory exists and its
/// current checksum (`None` when it could not be taken).
pub open spec fn sync_action_model(
    entry: EntryModel,
    dir_exists: bool,
    local_checksum: Option<Seq<char>>,
) -> SyncAction {
    if !dir_exists || local_checksum is None {
        SyncAction::Download
    } else if local_checksum->0 == entry.checksum {
        SyncAction::UpToDate
    } else {
        SyncAction::AskOverwrite
    }
}

/// What sync does with the skill recorded as `entry`: a missing directory is
/// downloaded without asking, a matching checksum means nothing to do, and a
/// differing one means local edits that are only overwritten on confirmation.
pub fn sync_action(entry: &SkillEntry, dir_exists: bool, local_checksum: &Option<String>) -> (r:
    SyncAction)
    ensures
        r == sync_action_model(entry@, dir_exists, opt_view(*local_checksum)),
{
    if !dir_exists {
        return SyncAction::Download;
    }
    match local_checksum {
        None => SyncAction::Download,
        Some(c) => if *c == entry.checksum {
            SyncAction::UpToDate
        } else {
            SyncAction::AskOverwrite
        },
    }
}

/// Where sync fetches a recorded skill from: the recorded slug, ref and path,
/// without resolving its URL again.
pub fn sync_source(entry: &SkillEntry) -> (r: GitHubUrl)
    ensures
        r@ == (Location { slug: entry.slug@, git_ref: entry.git_ref@, path: entry.path@ }),
{
    GitHubUrl { slug: entry.slug.clone(), git_ref: entry.git_ref.clone(), path: entry.path.clone() }
}

/// Records a new checksum for the skill `name` after it was downloaded again.
pub fn record_checksum(config: &mut SkillsConfig, name: &str, checksum: String)
    requires
        old(config).wf(),
    ensures
        final(config).wf(),
        old(config)@.dom().contains(name@) ==> final(config)@ == old(config)@.insert(
            name@,
            EntryModel { checksum: checksum@, ..old(config)@[name@] },
        ),
        !old(config)@.dom().contains(name@) ==> final(config)@ == old(config)@,
{
    let updated = match config.get(name) {
        Some(e) => {
            let mut u = e.duplicate();
            u.checksum = checksum;
            u
        },
        None => return,
    };
    config.insert(String::from_str(name), updated);
}

/// Of the first `k` directory names, those sync deletes: not hidden (no
/// leading dot) and not recorded.
pub open spec fn orphans_model(cfg: Map<Seq<char>, EntryModel>, names: Seq<Seq<char>>, k: int) -> Seq<
    Seq<char>,
>
    decreases k,
{
    if k <= 0 {
        Seq::empty()
    } else {
        let n = names[k - 1];
        let before = orphans_model(cfg, names, k - 1);
        if (n.len() > 0 && n[0] == '.') || cfg.dom().contains(n) {
            before
        } else {
            before.push(n)
        }
    }
}

/// The directories under the skills root that sync deletes: those that are
/// not hidden and have no record.
pub fn orphan_directories(config: &SkillsConfig, dir_names: &Vec<String>) -> (r: Vec<String>)
    ensures
        views(r@) == orphans_model(config@, views(dir_names@), dir_names@.len() as int),
{
    let mut r: Vec<String> = Vec::new();
    let mut i: usize = 0;
    proof {
        assert(views(r@) =~= Seq::<Seq<char>>::empty());
    }
    while i < dir_names.len()
        invariant
            i <= dir_names@.len(),
            views(r@) == orphans_model(config@, views(dir_names@), i as int),
        decreases dir_names.len() - i,
    {
        let name = dir_names[i].as_str();
        let hidden = name.unicode_len() > 0 && name.get_char(0) == '.';
        let ghost prev = r@;
        if !hidden && !config.contains(name) {
            r.push(dir_names[i].clone());
            proof {
                assert(views(r@) =~= views(prev).push(dir_names@[i as int]@));
            }
        }
        i = i + 1;
    }
    r
}

/// Drops the record of `name` once its directory is gone. Reports whether
/// anything was removed: the directory (`dir_existed`) or the record. A name
/// that was neither on disk nor recorded is no error: nothing changes and
/// nothing is reported removed.
pub fn uninstall_skill(config: &mut SkillsConfig, name: &str, dir_existed: bool) -> (r: bool)
    requires
        old(config).wf(),
    ensures
        final(config).wf(),
        final(config)@ == old(config)@.remove(name@),
        r == (dir_existed || old(config)@.dom().contains(name@)),
        !dir_existed && !old(config)@.dom().contains(name@) ==> !r && final(config)@ == old(
            config,
        )@,
{
    let removed = config.remove(name);
    proof {
        if !removed {
            assert(old(config)@.remove(name@) =~= old(config)@);
        }
    }
    dir_existed || removed
}

} // verus!
