//! Installing a container of skills as a state machine: one download for
//! the whole container, then each member moved into place on its own, a
//! failure of one never stopping the others.

use vstd::prelude::*;
use vstd::string::*;

use crate::error::SkillsError;
use crate::manifest::{EntryModel, SkillsConfig};
use crate::orchestrate::{
    batch_entry, members_to_update, pending_members, BatchMember, BatchProgress,
};
use crate::text::views;
use crate::url::GitHubUrl;

verus! {

/// What the batch install needs from the caller next.
pub enum BatchStep {
    /// Every member is current; the number of members.
    AllUpToDate(usize),
    /// Ask whether to install these members, and report with [`BatchInstall::confirmed`].
    Confirm(Vec<String>),
    /// Download the container once into staging, and report with [`BatchInstall::downloaded`].
    Download,
    /// Move this staged member into place and report its checksum, or the
    /// failure, with [`BatchInstall::installed`].
    Install(String),
    /// Every pending member was handled: see [`BatchInstall::finish`].
    Finished,
    /// The user declined: nothing changes.
    Cancelled,
}

/// A batch install in progress: the manifest, where the container comes
/// from and which commit it is at, the members still to install, and how it
/// went so far.
pub struct BatchInstall {
    pub config: SkillsConfig,
    pub base_url: String,
    pub location: GitHubUrl,
    pub commit: String,
    pub pending: Vec<String>,
    pub next: usize,
    pub progress: BatchProgress,
}

/// The record a batch member gets: the container's URL and path, then a
/// slash and the member's name.
pub open spec fn member_record(
    base_url: Seq<char>,
    slug: Seq<char>,
    path: Seq<char>,
    git_ref: Seq<char>,
    member: Seq<char>,
    commit: Seq<char>,
    checksum: Seq<char>,
) -> EntryModel {
    EntryModel {
        source_url: base_url + "/"@ + member,
        slug,
        path: path + "/"@ + member,
        git_ref,
        commit,
        checksum,
    }
}

impl BatchInstall {
    pub open spec fn wf(&self) -> bool {
        &&& self.config.wf()
        &&& self.next <= self.pending@.len() <= usize::MAX
        &&& self.progress.successful + self.progress.failed@.len() == self.next
    }

    /// The step that installs the member at index `i`, or finishes once none is left.
    pub open spec fn step_at(&self, i: int, r: BatchStep) -> bool {
        if i < self.pending@.len() {
            r matches BatchStep::Install(n) && n@ == self.pending@[i]@
        } else {
            r is Finished
        }
    }

    /// The member being installed.
    pub open spec fn current(&self) -> Seq<char> {
        self.pending@[self.next as int]@
    }

    fn step_for(&self, i: usize) -> (r: BatchStep)
        requires
            i <= self.pending@.len(),
        ensures
            self.step_at(i as int, r),
    {
        if i < self.pending.len() {
            BatchStep::Install(self.pending[i].clone())
        } else {
            BatchStep::Finished
        }
    }

    /// Starts installing the members of the container at `location`, whose
    /// ref points to `commit`, as found locally in `members`. Only members
    /// that need it are installed; when none does, nothing is to be done.
    pub fn start(
        config: SkillsConfig,
        base_url: &str,
        location: GitHubUrl,
        commit: &str,
        members: &Vec<BatchMember>,
    ) -> (r: (BatchInstall, BatchStep))
        requires
            config.wf(),
        ensures
            r.0.wf(),
            r.0.config@ == config@,
            r.0.base_url@ == base_url@,
            r.0.location@ == location@,
            r.0.commit@ == commit@,
            r.0.next == 0,
            views(r.0.pending@) == pending_members(
                config@,
                members@,
                commit@,
                members@.len() as int,
            ),
            r.0.pending@.len() == 0 ==> r.1 == BatchStep::AllUpToDate(members@.len() as usize),
            r.0.pending@.len() > 0 ==> (r.1 matches BatchStep::Confirm(v) && views(v@) == views(
                r.0.pending@,
            )),
    {
        let pending = members_to_update(&config, members, commit);
        proof {
            assert(pending.len() == pending@.len());
        }
        let mut shown: Vec<String> = Vec::new();
        let mut i: usize = 0;
        while i < pending.len()
            invariant
                i <= pending@.len(),
                shown@.len() == i,
                forall|k: int| 0 <= k < i ==> #[trigger] shown@[k]@ == pending@[k]@,
            decreases pending.len() - i,
        {
            shown.push(pending[i].clone());
            i = i + 1;
        }
        proof {
            assert(views(shown@) =~= views(pending@));
        }
        let count = members.len();
        let session = BatchInstall {
            config,
            base_url: String::from_str(base_url),
            location,
            commit: String::from_str(commit),
            pending,
            next: 0,
            progress: BatchProgress::new(),
        };
        if session.pending.len() == 0 {
            (session, BatchStep::AllUpToDate(count))
        } else {
            (session, BatchStep::Confirm(shown))
        }
    }

    /// Takes the answer to the confirmation: yes goes on to the download,
    /// no cancels without any change.
    pub fn confirmed(&self, yes: bool) -> (r: BatchStep)
        ensures
            yes ==> r is Download,
            !yes ==> r is Cancelled,
    {
        if yes {
            BatchStep::Download
        } else {
            BatchStep::Cancelled
        }
    }

    /// Takes the outcome of the container's download: on success the first
    /// member is installed; a failure ends the batch with that error.
    pub fn downloaded(&self, outcome: Result<(), SkillsError>) -> (r: Result<BatchStep, SkillsError>)
        requires
            self.wf(),
            self.next == 0,
        ensures
            match outcome {
                Ok(_) => r matches Ok(s) && self.step_at(0, s),
                Err(e) => r == Err::<BatchStep, SkillsError>(e),
            },
    {
        match outcome {
            Ok(_) => Ok(self.step_for(0)),
            Err(e) => Err(e),
        }
    }

    /// Takes the outcome of moving the current member into place: on
    /// success its record is written and it counts as installed; a failure
    /// names it among the failed. Either way the next member follows.
    pub fn installed(&mut self, outcome: Result<String, SkillsError>) -> (r: BatchStep)
        requires
            old(self).wf(),
            old(self).next < old(self).pending@.len(),
        ensures
            final(self).wf(),
            final(self).pending == old(self).pending,
            final(self).base_url == old(self).base_url,
            final(self).location == old(self).location,
            final(self).commit == old(self).commit,
            final(self).next == old(self).next + 1,
            final(self).step_at(final(self).next as int, r),
            match outcome {
                Ok(c) => final(self).config@ == old(self).config@.insert(
                    old(self).current(),
                    member_record(
                        old(self).base_url@,
                        old(self).location.slug@,
                        old(self).location.path@,
                        old(self).location.git_ref@,
                        old(self).current(),
                        old(self).commit@,
                        c@,
                    ),
                ) && final(self).progress.successful == old(self).progress.successful + 1
                    && final(self).progress.failed == old(self).progress.failed,
                Err(_) => final(self).config@ == old(self).config@
                    && final(self).progress.successful == old(self).progress.successful
                    && final(self).progress.failed@ == old(self).progress.failed@.push(
                    old(self).pending@[old(self).next as int],
                ),
            },
    {
        let name = self.pending[self.next].clone();
        match outcome {
            Ok(checksum) => {
                let entry = batch_entry(
                    self.base_url.as_str(),
                    &self.location,
                    name.as_str(),
                    self.commit.as_str(),
                    checksum,
                );
                self.config.insert(name, entry);
                self.progress.record_success();
            },
            Err(_) => {
                self.progress.record_failure(name);
            },
        }
        self.next = self.next + 1;
        self.step_for(self.next)
    }

    /// How the batch ended once every pending member was handled: the number
    /// installed, or a partial failure with that number and the failed names.
    pub fn finish(self) -> (r: Result<usize, SkillsError>)
        ensures
            self.progress.failed@.len() == 0 ==> r == Ok::<usize, SkillsError>(
                self.progress.successful,
            ),
            self.progress.failed@.len() > 0 ==> r == Err::<usize, SkillsError>(
                SkillsError::BatchInstallationFailed {
                    successful: self.progress.successful,
                    failed: self.progress.failed,
                },
            ),
    {
        self.progress.finish()
    }
}

} // verus!
