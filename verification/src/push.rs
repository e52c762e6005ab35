//! Push negotiation: what is sent to the remote, and how the remote's
//! answer is classified. A rejection is an outcome, not a failure.

use crate::text::same_text;
use vstd::prelude::*;

verus! {

/// How a push treats a remote branch that has moved.
#[derive(Clone, Copy, Debug, PartialEq, Eq, Structural)]
pub enum PushMode {
    /// Fail unless the push is a fast-forward.
    Plain,
    /// Overwrite the remote branch.
    Force,
    /// Overwrite the remote branch, but only while it still points at the
    /// commit last observed.
    ForceWithLease,
}

impl PushMode {
    /// The mode that the caller's two switches ask for: a lease wins over
    /// plain force.
    pub open spec fn of_flags(force: bool, force_with_lease: bool) -> PushMode {
        if force_with_lease {
            PushMode::ForceWithLease
        } else if force {
            PushMode::Force
        } else {
            PushMode::Plain
        }
    }

    /// The mode that the caller's two switches ask for.
    pub fn from_flags(force: bool, force_with_lease: bool) -> (mode: PushMode)
        ensures
            mode == Self::of_flags(force, force_with_lease),
    {
        if force_with_lease {
            PushMode::ForceWithLease
        } else if force {
            PushMode::Force
        } else {
            PushMode::Plain
        }
    }
}

/// The refspec that pushes a branch to the branch of the same name; a
/// leading `+` lets the remote branch be overwritten.
pub open spec fn refspec(branch: Seq<char>, mode: PushMode) -> Seq<char> {
    if mode == PushMode::Plain {
        "refs/heads/"@ + branch + ":refs/heads/"@ + branch
    } else {
        "+refs/heads/"@ + branch + ":refs/heads/"@ + branch
    }
}

/// The refspec that pushes a branch under a mode.
pub fn push_refspec(branch: &str, mode: PushMode) -> (spec: String)
    ensures
        spec@ == refspec(branch@, mode),
{
    let mut spec = match mode {
        PushMode::Plain => String::from_str("refs/heads/"),
        _ => String::from_str("+refs/heads/"),
    };
    spec.append(branch);
    spec.append(":refs/heads/");
    spec.append(branch);
    spec
}

/// What a push reports to the caller.
#[derive(Clone, Debug)]
pub struct PushResult {
    pub success: bool,
    pub rejected: bool,
    pub rejection_reason: String,
    pub bytes_sent: usize,
    pub message: String,
}

/// What a `PushResult` holds, as mathematical values.
pub struct PushResultModel {
    pub success: bool,
    pub rejected: bool,
    pub rejection_reason: Seq<char>,
    pub bytes_sent: nat,
    pub message: Seq<char>,
}

impl DeepView for PushResult {
    type V = PushResultModel;

    open spec fn deep_view(&self) -> PushResultModel {
        PushResultModel {
            success: self.success,
            rejected: self.rejected,
            rejection_reason: self.rejection_reason@,
            bytes_sent: self.bytes_sent as nat,
            message: self.message@,
        }
    }
}

/// What to do about a push before anything is sent.
#[derive(Clone, Debug)]
pub enum PushPlan {
    /// Send this refspec to the remote.
    Send { refspec: String },
    /// Send nothing: the lease is broken, and this is reported.
    Refuse { result: PushResult },
}

pub open spec fn lease_broken_reason(branch: Seq<char>) -> Seq<char> {
    "refs/heads/"@ + branch + ": stale info"@
}

pub open spec fn lease_broken_message() -> Seq<char> {
    "Push rejected: the remote branch moved since it was last fetched. Fetch first."@
}

/// A lease holds while the remote branch still points where it was last
/// observed to point; a branch absent then and now holds too.
pub open spec fn lease_holds(expected: Option<Seq<char>>, observed: Option<Seq<char>>) -> bool {
    expected == observed
}

/// Whether a lease holds.
pub fn check_lease(expected: &Option<String>, observed: &Option<String>) -> (r: bool)
    ensures
        r == lease_holds(expected.deep_view(), observed.deep_view()),
{
    match (expected, observed) {
        (None, None) => true,
        (Some(a), Some(b)) => same_text(a.as_str(), b.as_str()),
        _ => false,
    }
}

/// Decides what a push sends. Under a lease, `expected` is the commit the
/// remote branch was last observed to point at and `observed` the commit it
/// points at now; where they differ nothing is sent and the push is
/// reported as rejected.
pub fn plan_push(
    branch: &str,
    mode: PushMode,
    expected: &Option<String>,
    observed: &Option<String>,
) -> (plan: PushPlan)
    ensures
        mode == PushMode::ForceWithLease && !lease_holds(
            expected.deep_view(),
            observed.deep_view(),
        ) ==> {
            &&& plan is Refuse
            &&& plan->result.deep_view() == (PushResultModel {
                success: false,
                rejected: true,
                rejection_reason: lease_broken_reason(branch@),
                bytes_sent: 0,
                message: lease_broken_message(),
            })
        },
        !(mode == PushMode::ForceWithLease && !lease_holds(
            expected.deep_view(),
            observed.deep_view(),
        )) ==> plan is Send && plan->refspec@ == refspec(branch@, mode),
{
    let leased = match mode {
        PushMode::ForceWithLease => true,
        _ => false,
    };
    if leased && !check_lease(expected, observed) {
        let mut reason = String::from_str("refs/heads/");
        reason.append(branch);
        reason.append(": stale info");
        PushPlan::Refuse {
            result: PushResult {
                success: false,
                rejected: true,
                rejection_reason: reason,
                bytes_sent: 0,
                message: String::from_str(
                    "Push rejected: the remote branch moved since it was last fetched. Fetch first.",
                ),
            },
        }
    } else {
        PushPlan::Send { refspec: push_refspec(branch, mode) }
    }
}

/// The class of a push that failed, as the store gives it.
#[derive(Clone, Copy, Debug, PartialEq, Eq, Structural)]
pub enum PushFailure {
    /// The remote branch holds commits that the pushed one lacks.
    NotFastForward,
    /// The remote could not be reached, or the transfer broke.
    Transport,
    /// The remote did not accept the credentials.
    Auth,
    /// Any other failure.
    Other,
}

/// What the store observed of a push.
#[derive(Clone, Debug)]
pub enum PushReport {
    /// The transfer went through and the remote took every reference.
    Accepted { bytes_sent: usize },
    /// The transfer went through, but the remote refused the reference
    /// `refname` with the status `status`.
    Refused { refname: String, status: String },
    /// The push failed: the class of the failure and the store's words.
    Failed { kind: PushFailure, message: String },
}

/// What a `PushReport` holds, as mathematical values.
pub enum PushReportModel {
    Accepted { bytes_sent: nat },
    Refused { refname: Seq<char>, status: Seq<char> },
    Failed { kind: PushFailure, message: Seq<char> },
}

impl DeepView for PushReport {
    type V = PushReportModel;

    open spec fn deep_view(&self) -> PushReportModel {
        match self {
            PushReport::Accepted { bytes_sent } => PushReportModel::Accepted {
                bytes_sent: *bytes_sent as nat,
            },
            PushReport::Refused { refname, status } => PushReportModel::Refused {
                refname: refname@,
                status: status@,
            },
            PushReport::Failed { kind, message } => PushReportModel::Failed {
                kind: *kind,
                message: message@,
            },
        }
    }
}

/// The reason given for a push that is no fast-forward: the store's words,
/// or the name of the class where it gave none.
pub open spec fn diverged_reason(message: Seq<char>) -> Seq<char> {
    if message.len() > 0 {
        message
    } else {
        "non-fast-forward"@
    }
}

pub open spec fn pushed_message(remote: Seq<char>, branch: Seq<char>) -> Seq<char> {
    "Successfully pushed to "@ + remote + "/"@ + branch
}

pub open spec fn refused_reason(refname: Seq<char>, status: Seq<char>) -> Seq<char> {
    refname + ": "@ + status
}

pub open spec fn push_failed_message(message: Seq<char>) -> Seq<char> {
    "Push failed: "@ + message
}

/// What a push comes to: success; a rejection, where the remote refused the
/// reference or the push is no fast-forward, whatever words the store has
/// for it; or a fatal error, for every other failure.
pub open spec fn push_outcome(remote: Seq<char>, branch: Seq<char>, report: PushReportModel)
    -> Result<PushResultModel, Seq<char>> {
    match report {
        PushReportModel::Accepted { bytes_sent } => Ok(
            PushResultModel {
                success: true,
                rejected: false,
                rejection_reason: Seq::empty(),
                bytes_sent,
                message: pushed_message(remote, branch),
            },
        ),
        PushReportModel::Refused { refname, status } => Ok(
            PushResultModel {
                success: false,
                rejected: true,
                rejection_reason: refused_reason(refname, status),
                bytes_sent: 0,
                message: "Push was rejected by remote"@,
            },
        ),
        PushReportModel::Failed { kind, message } => if kind == PushFailure::NotFastForward {
            Ok(
                PushResultModel {
                    success: false,
                    rejected: true,
                    rejection_reason: diverged_reason(message),
                    bytes_sent: 0,
                    message: "Push rejected: Remote has newer commits. Pull first or use force push."@,
                },
            )
        } else {
            Err(push_failed_message(message))
        },
    }
}

/// Classifies what the store observed of a push to `remote_name`.
pub fn push_to_remote(remote_name: &str, branch_name: &str, report: &PushReport) -> (r: Result<
    PushResult,
    String,
>)
    ensures
        match (r, push_outcome(remote_name@, branch_name@, report.deep_view())) {
            (Ok(got), Ok(want)) => got.deep_view() == want,
            (Err(got), Err(want)) => got@ == want,
            _ => false,
        },
{
    match report {
        PushReport::Accepted { bytes_sent } => {
            let mut message = String::from_str("Successfully pushed to ");
            message.append(remote_name);
            message.append("/");
            message.append(branch_name);
            Ok(
                PushResult {
                    success: true,
                    rejected: false,
                    rejection_reason: String::new(),
                    bytes_sent: *bytes_sent,
                    message,
                },
            )
        },
        PushReport::Refused { refname, status } => {
            let mut reason = refname.clone();
            reason.append(": ");
            reason.append(status.as_str());
            Ok(
                PushResult {
                    success: false,
                    rejected: true,
                    rejection_reason: reason,
                    bytes_sent: 0,
                    message: String::from_str("Push was rejected by remote"),
                },
            )
        },
        PushReport::Failed { kind, message } => {
            if *kind == PushFailure::NotFastForward {
                let reason = if message.as_str().unicode_len() > 0 {
                    message.clone()
                } else {
                    String::from_str("non-fast-forward")
                };
                Ok(
                    PushResult {
                        success: false,
                        rejected: true,
                        rejection_reason: reason,
                        bytes_sent: 0,
                        message: String::from_str(
                            "Push rejected: Remote has newer commits. Pull first or use force push.",
                        ),
                    },
                )
            } else {
                let mut text = String::from_str("Push failed: ");
                text.append(message.as_str());
                Err(text)
            }
        },
    }
}

/// A push that the remote refuses, by a refused reference or because it is
/// no fast-forward, is reported as rejected with a reason, and never as a
/// fatal error, whatever the store's words for it are.
pub proof fn lemma_rejection_is_no_error(
    remote: Seq<char>,
    branch: Seq<char>,
    report: PushReportModel,
)
    requires
        report is Refused || (report is Failed && report->kind == PushFailure::NotFastForward),
    ensures
        push_outcome(remote, branch, report) is Ok,
        push_outcome(remote, branch, report)->Ok_0.rejected,
        !push_outcome(remote, branch, report)->Ok_0.success,
        push_outcome(remote, branch, report)->Ok_0.rejection_reason.len() > 0,
{
    reveal_strlit("non-fast-forward");
    reveal_strlit(": ");
}

/// A failure of the transport or of the credentials is a fatal error, never
/// a rejection.
pub proof fn lemma_transport_failure_is_fatal(
    remote: Seq<char>,
    branch: Seq<char>,
    kind: PushFailure,
    message: Seq<char>,
)
    requires
        kind != PushFailure::NotFastForward,
    ensures
        push_outcome(remote, branch, PushReportModel::Failed { kind, message }) == Err::<
            PushResultModel,
            Seq<char>,
        >(push_failed_message(message)),
{
}

} // verus!
