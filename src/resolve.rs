//! Resolving an ambiguous URL tail by asking the remote service about each
//! candidate split in turn.
//!
//! The caller performs the queries: it starts a [`Resolution`], carries out
//! each [`ResolveAction::Query`] it is handed, and reports the answer back
//! with [`Resolution::advance`] until the action is final.

use vstd::prelude::*;
use vstd::string::*;

use crate::error::SkillsError;
use crate::remote::{status_error, status_error_model, RemoteReply};
use crate::text::{join, join_slash, views};
use crate::url::{split_candidate, GitHubUrl, GitHubUrlSpec};

verus! {

/// What the remote service said about one candidate.
pub enum QueryOutcome {
    /// The ref exists and has history at the path; the commit it points to.
    Confirmed(String),
    /// The ref or path does not exist: try the next candidate.
    NotFound,
    /// Any other failure: give up at once.
    Failed(SkillsError),
}

/// What the caller has to do next.
pub enum ResolveAction {
    /// Ask the remote service about this candidate.
    Query(GitHubUrl),
    /// This candidate is confirmed, and its ref points to `commit`.
    Resolved { location: GitHubUrl, commit: String },
    /// Resolution failed with this error.
    Abort(SkillsError),
}

/// The decision after an outcome, over candidate indices.
pub enum Decision {
    Ask(nat),
    Accept(nat, Seq<char>),
    Fail(SkillsError),
    Exhausted,
}

/// The decision after `outcome` arrived for candidate `i` of `n`: accept it,
/// move on to the next one on a not-found answer, and stop on anything else
/// or when no candidate is left.
pub open spec fn decide(n: nat, i: nat, outcome: QueryOutcome) -> Decision {
    match outcome {
        QueryOutcome::Confirmed(c) => Decision::Accept(i, c@),
        QueryOutcome::NotFound => if i + 1 < n {
            Decision::Ask(i + 1)
        } else {
            Decision::Exhausted
        },
        QueryOutcome::Failed(e) => Decision::Fail(e),
    }
}

/// Feeding `outs[i]`, `outs[i + 1]`, ... in turn, starting at candidate `i`
/// of `n`: the decision that ends resolution and how many queries were made
/// in all (`Ask` if the outcomes ran out first).
pub open spec fn run(n: nat, outs: Seq<QueryOutcome>, i: nat) -> (Decision, nat)
    decreases outs.len() - i,
{
    if i >= outs.len() {
        (Decision::Ask(i), i)
    } else if outs[i as int] is NotFound && i + 1 < n {
        run(n, outs, i + 1)
    } else {
        (decide(n, i, outs[i as int]), i + 1)
    }
}

/// Resolution falls back through not-found answers: when every candidate
/// but the last is reported missing and the last is confirmed, the last one
/// is accepted, after exactly one query per candidate.
pub proof fn lemma_fallback_reaches_last(n: nat, outs: Seq<QueryOutcome>, commit: String)
    requires
        n >= 1,
        outs.len() == n,
        forall|k: int| 0 <= k < n - 1 ==> #[trigger] outs[k] is NotFound,
        outs[n - 1] == QueryOutcome::Confirmed(commit),
    ensures
        run(n, outs, 0) == (Decision::Accept((n - 1) as nat, commit@), n),
{
    lemma_run_skips_not_found(n, outs, 0, (n - 1) as nat);
}

/// Resolution stops at the first answer that is neither a confirmation nor
/// a not-found: that error ends it, and no later candidate is asked about.
pub proof fn lemma_abort_on_failure(n: nat, outs: Seq<QueryOutcome>, j: nat, e: SkillsError)
    requires
        j < n,
        j < outs.len(),
        forall|k: int| 0 <= k < j ==> #[trigger] outs[k] is NotFound,
        outs[j as int] == QueryOutcome::Failed(e),
    ensures
        run(n, outs, 0) == (Decision::Fail(e), j + 1),
{
    lemma_run_skips_not_found(n, outs, 0, j);
}

proof fn lemma_run_skips_not_found(n: nat, outs: Seq<QueryOutcome>, i: nat, j: nat)
    requires
        i <= j < n,
        j < outs.len(),
        forall|k: int| i <= k < j ==> #[trigger] outs[k] is NotFound,
    ensures
        run(n, outs, i) == run(n, outs, j),
    decreases j - i,
{
    if i < j {
        assert(outs[i as int] is NotFound);
        lemma_run_skips_not_found(n, outs, i + 1, j);
    }
}

/// An ongoing resolution: the candidates in the order they are tried, the
/// one asked about last, and the tail the candidates come from.
pub struct Resolution {
    pub candidates: Vec<GitHubUrl>,
    pub current: usize,
    pub whole_tail: String,
}

impl Resolution {
    pub open spec fn wf(&self) -> bool {
        self.current < self.candidates@.len()
    }

    /// `r` carries out decision `d` over these candidates.
    pub open spec fn performs(&self, r: ResolveAction, d: Decision) -> bool {
        match d {
            Decision::Ask(j) => r matches ResolveAction::Query(u) && j < self.candidates@.len()
                && u@ == self.candidates@[j as int]@,
            Decision::Accept(j, c) => r matches ResolveAction::Resolved { location, commit }
                && j < self.candidates@.len() && location@ == self.candidates@[j as int]@
                && commit@ == c,
            Decision::Fail(e) => r == ResolveAction::Abort(e),
            Decision::Exhausted => r matches ResolveAction::Abort(SkillsError::NotFound { url })
                && url@ == self.whole_tail@,
        }
    }

    /// Starts resolving `spec`: the first candidate (shortest ref) is asked
    /// about first. A tail with fewer than two segments has no candidate and
    /// fails with `InvalidUrl`.
    pub fn start(spec: &GitHubUrlSpec) -> (r: (Resolution, ResolveAction))
        ensures
            r.0.whole_tail@ == join(views(spec.tail@), '/'),
            r.0.candidates@.len() == if spec.tail@.len() == 0 {
                0
            } else {
                spec.tail@.len() - 1
            },
            forall|i: int|
                0 <= i < r.0.candidates@.len() ==> #[trigger] r.0.candidates@[i]@
                    == split_candidate(spec.slug@, views(spec.tail@), i + 1),
            spec.tail@.len() >= 2 ==> r.0.wf() && r.0.current == 0 && r.0.performs(
                r.1,
                Decision::Ask(0),
            ),
            spec.tail@.len() < 2 ==> r.1 matches ResolveAction::Abort(SkillsError::InvalidUrl(_)),
    {
        let candidates = spec.candidates();
        let whole_tail = if spec.tail.len() == 0 {
            String::new()
        } else {
            proof {
                assert(spec.tail@.subrange(0, spec.tail@.len() as int) =~= spec.tail@);
            }
            join_slash(&spec.tail, 0, spec.tail.len())
        };
        proof {
            if spec.tail@.len() == 0 {
                assert(views(spec.tail@) =~= Seq::<Seq<char>>::empty());
            }
        }
        if candidates.len() == 0 {
            let err = SkillsError::InvalidUrl(String::from_str("No valid ref/path candidates found"));
            return (Resolution { candidates, current: 0, whole_tail }, ResolveAction::Abort(err));
        }
        let first = candidates[0].duplicate();
        (Resolution { candidates, current: 0, whole_tail }, ResolveAction::Query(first))
    }

    /// Takes the answer about the current candidate and says what comes
    /// next: the confirmed candidate with its commit, the next candidate on a
    /// not-found answer, `NotFound` naming the whole tail once no candidate
    /// is left, or the failure itself.
    pub fn advance(&mut self, outcome: QueryOutcome) -> (r: ResolveAction)
        requires
            old(self).wf(),
        ensures
            final(self).candidates == old(self).candidates,
            final(self).whole_tail == old(self).whole_tail,
            final(self).performs(
                r,
                decide(old(self).candidates@.len(), old(self).current as nat, outcome),
            ),
            final(self).current == if decide(
                old(self).candidates@.len(),
                old(self).current as nat,
                outcome,
            ) is Ask {
                old(self).current + 1
            } else {
                old(self).current as int
            },
            final(self).wf(),
    {
        match outcome {
            QueryOutcome::Confirmed(commit) => {
                let location = self.candidates[self.current].duplicate();
                ResolveAction::Resolved { location, commit }
            },
            QueryOutcome::NotFound => {
                if self.current < self.candidates.len() - 1 {
                    self.current = self.current + 1;
                    ResolveAction::Query(self.candidates[self.current].duplicate())
                } else {
                    ResolveAction::Abort(SkillsError::NotFound { url: self.whole_tail.clone() })
                }
            },
            QueryOutcome::Failed(e) => ResolveAction::Abort(e),
        }
    }
}

/// What the commit history of a candidate's path at its ref holds.
pub enum CommitHistory {
    /// The latest commit touching the path.
    Latest(String),
    /// No commit touches the path: it does not exist at that ref.
    Empty,
    /// The answer named no commit in a form that could be read.
    Unreadable,
}

/// What the commit query for a candidate gives: its latest commit when the
/// history names one, not-found when the history is empty or the status is
/// 404 or 422, a network error for an unreadable answer, the status error
/// for any other status, and a network error for a failed transport.
pub fn commit_outcome(reply: RemoteReply<CommitHistory>, url: String) -> (r: QueryOutcome)
    ensures
        match reply {
            RemoteReply::Body(CommitHistory::Latest(sha)) => r == QueryOutcome::Confirmed(sha),
            RemoteReply::Body(CommitHistory::Empty) => r is NotFound,
            RemoteReply::Body(CommitHistory::Unreadable) => r matches QueryOutcome::Failed(
                SkillsError::NetworkError(m),
            ) && m@ == "Missing sha in response"@,
            RemoteReply::Status(s) => if s == 404 || s == 422 {
                r is NotFound
            } else {
                r == QueryOutcome::Failed(status_error_model(s, url))
            },
            RemoteReply::Transport(m) => r == QueryOutcome::Failed(SkillsError::NetworkError(m)),
        },
{
    match reply {
        RemoteReply::Body(CommitHistory::Latest(sha)) => QueryOutcome::Confirmed(sha),
        RemoteReply::Body(CommitHistory::Empty) => QueryOutcome::NotFound,
        RemoteReply::Body(CommitHistory::Unreadable) => QueryOutcome::Failed(
            SkillsError::NetworkError(String::from_str("Missing sha in response")),
        ),
        RemoteReply::Status(s) => {
            if s == 404 || s == 422 {
                QueryOutcome::NotFound
            } else {
                QueryOutcome::Failed(status_error(s, url))
            }
        },
        RemoteReply::Transport(m) => QueryOutcome::Failed(SkillsError::NetworkError(m)),
    }
}

} // verus!
