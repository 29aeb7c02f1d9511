//! Outcomes of removal attempts.

use vstd::prelude::*;

verus! {

/// Outcome of a removal attempt.
#[derive(Debug, Clone, PartialEq)]
pub enum RemovalOutcome {
    /// Form submitted successfully
    Submitted,
    /// Requires email verification to complete
    RequiresEmailVerification {
        /// The email address that needs verification
        email: String,
        /// The address where verification was sent
        sent_to: String,
    },
    /// CAPTCHA detected, requires user intervention
    RequiresCaptcha {
        /// URL to the CAPTCHA challenge
        captcha_url: String,
    },
    /// Broker requires account creation first
    RequiresAccountCreation,
    /// Submission failed with reason
    Failed {
        /// Human-readable failure reason
        reason: String,
        /// Optional technical error details
        error_details: Option<String>,
    },
}

impl RemovalOutcome {
    /// Whether the outcome requires user action: email verification, a
    /// CAPTCHA or account creation.
    pub fn requires_user_action(&self) -> (r: bool)
        ensures
            r == (*self is RequiresEmailVerification || *self is RequiresCaptcha
                || *self is RequiresAccountCreation),
    {
        match self {
            RemovalOutcome::RequiresEmailVerification { .. } | RemovalOutcome::RequiresCaptcha {
                ..
            } | RemovalOutcome::RequiresAccountCreation => true,
            _ => false,
        }
    }

    /// Whether the outcome is a failure.
    pub fn is_failure(&self) -> (r: bool)
        ensures
            r == (*self is Failed),
    {
        match self {
            RemovalOutcome::Failed { .. } => true,
            _ => false,
        }
    }

    /// Whether the outcome is a successful submission.
    pub fn is_success(&self) -> (r: bool)
        ensures
            r == (*self is Submitted),
    {
        match self {
            RemovalOutcome::Submitted => true,
            _ => false,
        }
    }
}

/// An outcome is at most one of: a success, a failure, a call for user
/// action; and exactly one of them unless nothing more is needed.
pub proof fn law_outcome_classes_exclusive(o: RemovalOutcome)
    ensures
        !((o is Submitted) && (o is Failed)),
        (o is Submitted) ==> !(o is RequiresEmailVerification || o is RequiresCaptcha
            || o is RequiresAccountCreation),
        (o is Failed) ==> !(o is RequiresEmailVerification || o is RequiresCaptcha
            || o is RequiresAccountCreation),
        (o is Submitted) || (o is Failed) || (o is RequiresEmailVerification || o is RequiresCaptcha
            || o is RequiresAccountCreation),
{
}

/// The manual CAPTCHA solver: it never solves a CAPTCHA itself and always
/// signals that the user has to step in.
#[derive(Debug, Clone, Copy)]
pub struct ManualSolver;

impl ManualSolver {
    /// Attempts to solve a CAPTCHA: the manual solver always answers that
    /// manual intervention is needed (`false`).
    pub fn solve(&self, captcha_selector: &str) -> (r: bool)
        ensures
            !r,
    {
        false
    }
}

} // verus!
