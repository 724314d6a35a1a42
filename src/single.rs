//! Installing a single skill as a state machine: confirm a change of
//! source, compare with what is installed, and record a fresh download.

use vstd::prelude::*;
use vstd::string::*;

use crate::error::SkillsError;
use crate::manifest::{EntryModel, SkillsConfig};
use crate::orchestrate::{
    installed_entry, opt_view, plan_single_install, refresh_source, single_plan_model,
    source_conflict, SingleInstallPlan,
};
use crate::url::GitHubUrl;

verus! {

/// What the single-skill install needs from the caller next.
#[derive(Debug, Clone, Copy, PartialEq, Eq, Structural)]
pub enum SingleStep {
    /// A skill of this name came from another source: ask whether to go on,
    /// and report with [`SingleInstall::confirmed`].
    ConfirmSource,
    /// Look at the skill's directory and report with [`SingleInstall::observed`].
    Inspect,
    /// The installed copy is current: nothing to do.
    UpToDate,
    /// Only the recorded source URL changed: save the manifest.
    SaveSource,
    /// Stage the download, check its marker, swap it into place, and report
    /// the new directory's checksum (or the failure) with [`SingleInstall::downloaded`].
    Download,
    /// The new record is written: save the manifest.
    Save,
    /// The user declined: nothing changes.
    Cancelled,
}

/// A single-skill install in progress.
pub struct SingleInstall {
    pub config: SkillsConfig,
    pub name: String,
    pub source_url: String,
    pub location: GitHubUrl,
    pub commit: String,
}

impl SingleInstall {
    /// Starts installing the skill `name` from `source_url`, resolved to
    /// `location` whose ref points to `commit`. A record of that name from
    /// another source needs confirmation first.
    pub fn start(
        config: SkillsConfig,
        name: &str,
        source_url: &str,
        location: GitHubUrl,
        commit: &str,
    ) -> (r: (SingleInstall, SingleStep))
        requires
            config.wf(),
        ensures
            r.0.config.wf(),
            r.0.config@ == config@,
            r.0.name@ == name@,
            r.0.source_url@ == source_url@,
            r.0.location@ == location@,
            r.0.commit@ == commit@,
            r.1 == if config@.dom().contains(name@) && config@[name@].source_url != source_url@ {
                SingleStep::ConfirmSource
            } else {
                SingleStep::Inspect
            },
    {
        let conflict = source_conflict(&config, name, source_url);
        let session = SingleInstall {
            config,
            name: String::from_str(name),
            source_url: String::from_str(source_url),
            location,
            commit: String::from_str(commit),
        };
        if conflict {
            (session, SingleStep::ConfirmSource)
        } else {
            (session, SingleStep::Inspect)
        }
    }

    /// Takes the answer about replacing a skill from another source.
    pub fn confirmed(&self, yes: bool) -> (r: SingleStep)
        ensures
            r == if yes {
                SingleStep::Inspect
            } else {
                SingleStep::Cancelled
            },
    {
        if yes {
            SingleStep::Inspect
        } else {
            SingleStep::Cancelled
        }
    }

    /// Takes what was seen of the skill's directory: whether it exists and
    /// its checksum (`None` when it could not be taken). A current copy
    /// needs nothing, or only its recorded source URL updated; anything else
    /// is downloaded.
    pub fn observed(&mut self, dir_exists: bool, local_checksum: Option<String>) -> (r: SingleStep)
        requires
            old(self).config.wf(),
        ensures
            final(self).config.wf(),
            final(self).name == old(self).name,
            final(self).source_url == old(self).source_url,
            final(self).location == old(self).location,
            final(self).commit == old(self).commit,
            ({
                let plan = single_plan_model(
                    old(self).config@,
                    old(self).name@,
                    old(self).source_url@,
                    dir_exists,
                    old(self).commit@,
                    opt_view(local_checksum),
                );
                match plan {
                    SingleInstallPlan::UpToDate => r == SingleStep::UpToDate && final(self).config@
                        == old(self).config@,
                    SingleInstallPlan::RefreshSource => r == SingleStep::SaveSource
                        && final(self).config@ == old(self).config@.insert(
                        old(self).name@,
                        EntryModel {
                            source_url: old(self).source_url@,
                            ..old(self).config@[old(self).name@]
                        },
                    ),
                    SingleInstallPlan::Download => r == SingleStep::Download && final(self).config@
                        == old(self).config@,
                }
            }),
    {
        match plan_single_install(
            &self.config,
            self.name.as_str(),
            self.source_url.as_str(),
            dir_exists,
            self.commit.as_str(),
            &local_checksum,
        ) {
            SingleInstallPlan::UpToDate => SingleStep::UpToDate,
            SingleInstallPlan::RefreshSource => {
                refresh_source(&mut self.config, self.name.as_str(), self.source_url.as_str());
                SingleStep::SaveSource
            },
            SingleInstallPlan::Download => SingleStep::Download,
        }
    }

    /// Takes the outcome of the download: on success the skill is recorded
    /// with the checksum of its new directory; a failure ends the install
    /// with that error and no change.
    pub fn downloaded(&mut self, outcome: Result<String, SkillsError>) -> (r: Result<
        SingleStep,
        SkillsError,
    >)
        requires
            old(self).config.wf(),
        ensures
            final(self).config.wf(),
            final(self).name == old(self).name,
            match outcome {
                Ok(c) => r == Ok::<SingleStep, SkillsError>(SingleStep::Save) && final(self).config@
                    == old(self).config@.insert(
                    old(self).name@,
                    EntryModel {
                        source_url: old(self).source_url@,
                        slug: old(self).location.slug@,
                        path: old(self).location.path@,
                        git_ref: old(self).location.git_ref@,
                        commit: old(self).commit@,
                        checksum: c@,
                    },
                ),
                Err(e) => r == Err::<SingleStep, SkillsError>(e) && final(self).config@ == old(
                    self,
                ).config@,
            },
    {
        match outcome {
            Ok(checksum) => {
                let entry = installed_entry(
                    self.source_url.as_str(),
                    &self.location,
                    self.commit.as_str(),
                    checksum,
                );
                self.config.insert(self.name.clone(), entry);
                Ok(SingleStep::Save)
            },
            Err(e) => Err(e),
        }
    }
}

} // verus!
