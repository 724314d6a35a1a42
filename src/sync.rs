//! The sync workflow as a state machine: the caller inspects directories,
//! asks questions and fetches skills as told, and reports back; the
//! manifest is updated here and saved once at the end.

use vstd::prelude::*;
use vstd::string::*;

use crate::error::SkillsError;
use crate::manifest::{EntryModel, SkillsConfig};
use crate::orchestrate::{opt_view, record_checksum, sync_action, sync_action_model, sync_source, SyncAction};
use crate::url::{GitHubUrl, Location};

verus! {

/// What the sync loop needs from the caller next.
pub enum SyncStep {
    /// Look at this skill's directory and report with [`SyncSession::observed`].
    Inspect(String),
    /// Ask whether this skill's local edits may be overwritten, and report
    /// the answer with [`SyncSession::answered`].
    Ask(String),
    /// Fetch the skill `name` from `source` into place, and report its new
    /// checksum, or the failure, with [`SyncSession::fetched`].
    Fetch { name: String, source: GitHubUrl },
    /// Every skill was handled: save the manifest.
    Save,
    /// Nothing is recorded: there is nothing to do or save.
    Done,
}

/// A sync in progress: the manifest, the names of the recorded skills, and
/// the index of the one being handled.
pub struct SyncSession {
    pub config: SkillsConfig,
    pub names: Vec<String>,
    pub next: usize,
}

/// Where a recorded skill is fetched from.
pub open spec fn source_of(e: EntryModel) -> Location {
    Location { slug: e.slug, git_ref: e.git_ref, path: e.path }
}

impl SyncSession {
    pub open spec fn wf(&self) -> bool {
        &&& self.config.wf()
        &&& self.next <= self.names@.len() <= usize::MAX
        &&& forall|i: int|
            0 <= i < self.names@.len() ==> #[trigger] self.config@.dom().contains(self.names@[i]@)
    }

    /// The step that starts handling the skill at index `i`, or saving once
    /// none is left.
    pub open spec fn step_at(&self, i: int, r: SyncStep) -> bool {
        if i < self.names@.len() {
            r matches SyncStep::Inspect(n) && n@ == self.names@[i]@
        } else {
            r is Save
        }
    }

    /// The name of the skill being handled.
    pub open spec fn current(&self) -> Seq<char> {
        self.names@[self.next as int]@
    }

    fn step_for(&self, i: usize) -> (r: SyncStep)
        requires
            i <= self.names@.len(),
        ensures
            self.step_at(i as int, r),
    {
        if i < self.names.len() {
            SyncStep::Inspect(self.names[i].clone())
        } else {
            SyncStep::Save
        }
    }

    /// Starts syncing every skill recorded in `config`.
    pub fn start(config: SkillsConfig) -> (r: (SyncSession, SyncStep))
        requires
            config.wf(),
        ensures
            r.0.wf(),
            r.0.config@ == config@,
            r.0.next == 0,
            forall|k: Seq<char>| config@.dom().contains(k) <==> exists|i: int|
                0 <= i < r.0.names@.len() && #[trigger] r.0.names@[i]@ == k,
            config@.dom() == Set::<Seq<char>>::empty() ==> r.1 is Done,
            config@.dom() != Set::<Seq<char>>::empty() ==> r.0.step_at(0, r.1),
    {
        let names = config.names();
        proof {
            assert(names.len() == names@.len());
        }
        let empty = config.is_empty();
        let session = SyncSession { config, names, next: 0 };
        proof {
            assert forall|i: int| 0 <= i < session.names@.len() implies #[trigger] session.config@.dom().contains(
                session.names@[i]@,
            ) by {}
        }
        if empty {
            (session, SyncStep::Done)
        } else {
            let step = session.step_for(0);
            (session, step)
        }
    }

    /// Takes what was seen of the current skill's directory: whether it
    /// exists and its checksum (`None` when it could not be taken). A
    /// missing or unreadable directory is fetched without asking, a matching
    /// checksum moves on to the next skill, and local edits lead to a question.
    pub fn observed(&mut self, dir_exists: bool, local_checksum: Option<String>) -> (r: SyncStep)
        requires
            old(self).wf(),
            old(self).next < old(self).names@.len(),
        ensures
            final(self).wf(),
            final(self).config@ == old(self).config@,
            final(self).names == old(self).names,
            ({
                let e = old(self).config@[old(self).current()];
                match sync_action_model(e, dir_exists, opt_view(local_checksum)) {
                    SyncAction::UpToDate => final(self).next == old(self).next + 1
                        && final(self).step_at(final(self).next as int, r),
                    SyncAction::Download => final(self).next == old(self).next && (r matches SyncStep::Fetch { name, source }
                        && name@ == old(self).current() && source@ == source_of(e)),
                    SyncAction::AskOverwrite => final(self).next == old(self).next && (r matches SyncStep::Ask(n)
                        && n@ == old(self).current()),
                }
            }),
    {
        let name = self.names[self.next].clone();
        proof {
            assert(self.config@.dom().contains(self.names@[self.next as int]@));
        }
        let entry = self.config.get(name.as_str()).unwrap();
        match sync_action(entry, dir_exists, &local_checksum) {
            SyncAction::UpToDate => {
                        self.next = self.next + 1;
                self.step_for(self.next)
            },
            SyncAction::Download => {
                let source = sync_source(entry);
                SyncStep::Fetch { name, source }
            },
            SyncAction::AskOverwrite => SyncStep::Ask(name),
        }
    }

    /// Takes the answer to the question about the current skill: yes fetches
    /// it, no leaves it and its record as they are and moves on.
    pub fn answered(&mut self, overwrite: bool) -> (r: SyncStep)
        requires
            old(self).wf(),
            old(self).next < old(self).names@.len(),
        ensures
            final(self).wf(),
            final(self).config@ == old(self).config@,
            final(self).names == old(self).names,
            overwrite ==> final(self).next == old(self).next && (r matches SyncStep::Fetch { name, source }
                && name@ == old(self).current() && source@ == source_of(
                old(self).config@[old(self).current()],
            )),
            !overwrite ==> final(self).next == old(self).next + 1 && final(self).step_at(
                final(self).next as int,
                r,
            ),
    {
        if overwrite {
            let name = self.names[self.next].clone();
            proof {
                assert(self.config@.dom().contains(self.names@[self.next as int]@));
            }
            let entry = self.config.get(name.as_str()).unwrap();
            let source = sync_source(entry);
            SyncStep::Fetch { name, source }
        } else {
                self.next = self.next + 1;
            self.step_for(self.next)
        }
    }

    /// Takes the outcome of fetching the current skill: on success, the
    /// checksum of its new directory is recorded; a failure leaves the
    /// record as it is. Either way the next skill follows.
    pub fn fetched(&mut self, outcome: Result<String, SkillsError>) -> (r: SyncStep)
        requires
            old(self).wf(),
            old(self).next < old(self).names@.len(),
        ensures
            final(self).wf(),
            final(self).names == old(self).names,
            final(self).next == old(self).next + 1,
            final(self).step_at(final(self).next as int, r),
            match outcome {
                Ok(c) => final(self).config@ == old(self).config@.insert(
                    old(self).current(),
                    EntryModel { checksum: c@, ..old(self).config@[old(self).current()] },
                ),
                Err(_) => final(self).config@ == old(self).config@,
            },
    {
        proof {
            assert(self.config@.dom().contains(self.names@[self.next as int]@));
        }
        if let Ok(checksum) = outcome {
            let name = self.names[self.next].as_str();
            record_checksum(&mut self.config, name, checksum);
        }
        self.next = self.next + 1;
        self.step_for(self.next)
    }
}

} // verus!
