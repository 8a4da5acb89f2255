//! Checked verifier-flow and report-only outcome contracts.
//!
//! A verification attempt walks seven success gates in one fixed order and
//! ends in exactly one terminal. Every gate takes an opaque capability that is
//! bound to the attempt; every failure is admitted only in the phases where it
//! can arise, and releases the retained request when it is admitted.
use std::sync::Arc;

use vstd::prelude::*;

use crate::freshness::{FreshnessChecked, FreshnessGuard, ReplayRegistration, ReplayStore};
use crate::freshness::{RegistrationView, challenge_registration};
use crate::model::{
    AccountScope, BuildId, Decision, EvidenceBundle, EvidenceProfile, FreshnessError, GameId,
    MatchId, PolicyId, PolicyVersion, PublisherChallenge, PublisherId, ReasonCode,
    SessionPublicKeyId, UnixTime, spec_evaluate,
};
use crate::text::push_text;

verus! {

/// Expected relying-party context supplied independently of client evidence.
#[derive(Clone, PartialEq, Eq)]
pub struct ExpectedContext {
    /// Expected publisher.
    pub publisher_id: PublisherId,
    /// Expected game.
    pub game_id: GameId,
    /// Expected build.
    pub build_id: BuildId,
    /// Expected account scope.
    pub account_scope: AccountScope,
    /// Expected match.
    pub match_id: MatchId,
    /// Expected policy.
    pub policy_id: PolicyId,
    /// Expected policy version.
    pub policy_version: PolicyVersion,
}

impl ExpectedContext {
    /// The redacted diagnostic text.
    pub fn diagnostic(&self) -> (r: &'static str)
        ensures
            r@ == "ExpectedContext([REDACTED])"@,
    {
        "ExpectedContext([REDACTED])"
    }
}

/// Input to the verifier.
#[derive(Clone, PartialEq, Eq)]
pub struct VerificationRequest {
    /// Publisher challenge retained by the verifier.
    pub challenge: PublisherChallenge,
    /// Evidence received from the attester.
    pub evidence: EvidenceBundle,
    /// Context supplied by the relying party, not by the client.
    pub expected: ExpectedContext,
    /// Publisher-verifier authoritative current Unix time.
    pub now: UnixTime,
}

impl VerificationRequest {
    /// The redacted diagnostic text.
    pub fn diagnostic(&self) -> (r: &'static str)
        ensures
            r@ == "VerificationRequest([REDACTED])"@,
    {
        "VerificationRequest([REDACTED])"
    }
}

/// Redacted public view of the verifier's current state.
#[derive(Debug, Clone, Copy, PartialEq, Eq, Hash, Structural)]
pub enum VerificationPhase {
    /// Evidence has been received and no gate has completed.
    EvidenceReceived,
    /// The publisher challenge has been authenticated.
    ChallengeAuthenticated,
    /// Freshness and single-use claim checks have completed.
    FreshnessChecked,
    /// Trusted identity checks have completed.
    IdentityChecked,
    /// Evidence appraisal has completed.
    EvidenceAppraised,
    /// The live session has been bound to the verification attempt.
    SessionBound,
    /// Revocation checks have completed.
    RevocationChecked,
    /// Policy has selected an allowed class.
    PolicySatisfied,
    /// Every success gate has completed.
    Verified,
    /// Input was malformed.
    Malformed,
    /// A mandatory feature or profile was unsupported.
    Unsupported,
    /// Verification ended in a retryable failure.
    Retryable,
    /// Verification was denied.
    Denied,
    /// Verification encountered a revoked input or policy.
    Revoked,
}

/// Public action names used by redacted transition errors.
#[derive(Debug, Clone, Copy, PartialEq, Eq, Hash, Structural)]
pub enum VerificationAction {
    /// Record publisher challenge authentication.
    RecordChallengeAuthenticated,
    /// Record freshness and replay checks.
    RecordFreshnessChecked,
    /// Record trusted identity checks.
    RecordIdentityChecked,
    /// Record evidence appraisal.
    RecordEvidenceAppraised,
    /// Record live-session binding.
    RecordSessionBound,
    /// Record revocation checks.
    RecordRevocationChecked,
    /// Record policy satisfaction.
    RecordPolicySatisfied,
    /// Complete the successful verification path.
    Complete,
    /// Enter the malformed terminal.
    MarkMalformed,
    /// Enter the unsupported terminal.
    MarkUnsupported,
    /// Enter the retryable terminal.
    MarkRetryable,
    /// Enter the denied terminal.
    Deny,
    /// Enter the revoked terminal.
    MarkRevoked,
}

/// Fixed non-disciplinary reasons accepted by the denied terminal.
#[derive(Debug, Clone, Copy, PartialEq, Eq, Hash, Structural)]
pub enum DenialReason {
    /// Publisher challenge authentication failed.
    ChallengeAuthenticationFailed,
    /// The request predates its validity window.
    NotYetValid,
    /// The request has expired.
    Expired,
    /// The challenge has already been used.
    ReplayDetected,
    /// The relying-party, identity, or session context did not match.
    ContextBindingMismatch,
    /// Evidence appraisal failed.
    EvidenceInvalid,
    /// The selected policy denied the request.
    PolicyDenied,
    /// Required protected-session properties were lost.
    ProtectedSessionLost,
}

/// Typed cause for entering the non-disciplinary unsupported terminal.
#[derive(Debug, Clone, Copy, PartialEq, Eq, Hash, Structural)]
pub enum UnsupportedRequirement {
    /// A protocol version or evidence profile is not implemented.
    VersionOrProfile,
    /// The platform is not supported for the selected policy.
    Platform,
    /// A critical requirement is unknown and cannot be safely skipped.
    UnknownCriticalRequirement,
}

/// Typed causes accepted by the non-disciplinary retry terminal.
#[derive(Debug, Clone, Copy, PartialEq, Eq, Hash, Structural)]
pub enum RetryReason {
    /// A required attestation service or resource was unavailable.
    AttestationUnavailable,
    /// A transient verifier failure may be retried.
    TransientFailure,
}

/// The reason code reported for an unsupported requirement.
pub open spec fn unsupported_code(requirement: UnsupportedRequirement) -> ReasonCode {
    match requirement {
        UnsupportedRequirement::VersionOrProfile => ReasonCode::UnsupportedVersionOrProfile,
        UnsupportedRequirement::Platform => ReasonCode::UnsupportedPlatform,
        UnsupportedRequirement::UnknownCriticalRequirement => ReasonCode::UnsupportedCriticalRequirement,
    }
}

/// The reason code reported for a retry reason.
pub open spec fn retry_code(reason: RetryReason) -> ReasonCode {
    match reason {
        RetryReason::AttestationUnavailable => ReasonCode::AttestationUnavailable,
        RetryReason::TransientFailure => ReasonCode::TransientFailure,
    }
}

/// The reason code reported for a denial reason.
pub open spec fn denial_code(reason: DenialReason) -> ReasonCode {
    match reason {
        DenialReason::ChallengeAuthenticationFailed => ReasonCode::ChallengeAuthenticationFailed,
        DenialReason::NotYetValid => ReasonCode::NotYetValid,
        DenialReason::Expired => ReasonCode::Expired,
        DenialReason::ReplayDetected => ReasonCode::ReplayDetected,
        DenialReason::ContextBindingMismatch => ReasonCode::ContextBindingMismatch,
        DenialReason::EvidenceInvalid => ReasonCode::EvidenceInvalid,
        DenialReason::PolicyDenied => ReasonCode::PolicyDenied,
        DenialReason::ProtectedSessionLost => ReasonCode::ProtectedSessionLost,
    }
}

impl UnsupportedRequirement {
    /// The reason code reported for this requirement.
    pub fn as_reason_code(self) -> (r: ReasonCode)
        ensures
            r == unsupported_code(self),
    {
        match self {
            UnsupportedRequirement::VersionOrProfile => ReasonCode::UnsupportedVersionOrProfile,
            UnsupportedRequirement::Platform => ReasonCode::UnsupportedPlatform,
            UnsupportedRequirement::UnknownCriticalRequirement => ReasonCode::UnsupportedCriticalRequirement,
        }
    }
}

impl RetryReason {
    /// The reason code reported for this retry reason.
    pub fn as_reason_code(self) -> (r: ReasonCode)
        ensures
            r == retry_code(self),
    {
        match self {
            RetryReason::AttestationUnavailable => ReasonCode::AttestationUnavailable,
            RetryReason::TransientFailure => ReasonCode::TransientFailure,
        }
    }
}

impl DenialReason {
    /// The reason code reported for this denial reason.
    pub fn as_reason_code(self) -> (r: ReasonCode)
        ensures
            r == denial_code(self),
    {
        match self {
            DenialReason::ChallengeAuthenticationFailed => ReasonCode::ChallengeAuthenticationFailed,
            DenialReason::NotYetValid => ReasonCode::NotYetValid,
            DenialReason::Expired => ReasonCode::Expired,
            DenialReason::ReplayDetected => ReasonCode::ReplayDetected,
            DenialReason::ContextBindingMismatch => ReasonCode::ContextBindingMismatch,
            DenialReason::EvidenceInvalid => ReasonCode::EvidenceInvalid,
            DenialReason::PolicyDenied => ReasonCode::PolicyDenied,
            DenialReason::ProtectedSessionLost => ReasonCode::ProtectedSessionLost,
        }
    }
}

/// What a report says: its decision, and its reason where there is one.
pub type Report = (Decision, Option<ReasonCode>);

/// Report-only view of a verifier terminal.
#[derive(Debug, Clone, Copy, PartialEq, Eq)]
pub struct VerificationOutcome {
    decision: Decision,
    reason: Option<ReasonCode>,
}

impl View for VerificationOutcome {
    type V = Report;

    closed spec fn view(&self) -> Report {
        (self.decision, self.reason)
    }
}

/// The report of a full or restricted allow.
pub open spec fn allow_report(allowed: AllowedClass) -> Report {
    match allowed {
        AllowedClass::Full => (Decision::Allow, None),
        AllowedClass::Restricted => (Decision::AllowRestricted, None),
    }
}

impl VerificationOutcome {
    /// Returns the non-authoritative decision report.
    pub fn decision(self) -> (r: Decision)
        ensures
            r == self@.0,
    {
        self.decision
    }

    /// Returns the structured non-disciplinary reason report.
    pub fn reason(self) -> (r: Option<ReasonCode>)
        ensures
            r == self@.1,
    {
        self.reason
    }

    fn allowed(allowed: AllowedClass) -> (r: VerificationOutcome)
        ensures
            r@ == allow_report(allowed),
    {
        match allowed {
            AllowedClass::Full => VerificationOutcome { decision: Decision::Allow, reason: None },
            AllowedClass::Restricted => VerificationOutcome {
                decision: Decision::AllowRestricted,
                reason: None,
            },
        }
    }

    fn failed(failure: FailureKind) -> (r: VerificationOutcome)
        ensures
            r@ == failure_report(failure),
    {
        let decision = match failure {
            FailureKind::Unsupported(_) => Decision::Unsupported,
            FailureKind::Retry(_) => Decision::Retry,
            _ => Decision::Deny,
        };
        VerificationOutcome { decision, reason: Some(failure.reason_code()) }
    }
}

/// Policy's selected allowed class.
#[derive(Debug, Clone, Copy, PartialEq, Eq, Hash, Structural)]
pub enum AllowedClass {
    /// Full-policy allow.
    Full,
    /// Restricted-policy allow.
    Restricted,
}

/// One normalized failure action: the terminal it enters and its cause.
#[derive(Debug, Clone, Copy, PartialEq, Eq, Hash, Structural)]
pub enum FailureKind {
    /// Malformed evidence.
    Malformed,
    /// A typed unsupported requirement.
    Unsupported(UnsupportedRequirement),
    /// A typed retryable failure.
    Retry(RetryReason),
    /// A typed denial.
    Deny(DenialReason),
    /// Revocation discovered at the approved phase.
    Revoked,
}

/// The public action a failure is reported under.
pub open spec fn failure_action(failure: FailureKind) -> VerificationAction {
    match failure {
        FailureKind::Malformed => VerificationAction::MarkMalformed,
        FailureKind::Unsupported(_) => VerificationAction::MarkUnsupported,
        FailureKind::Retry(_) => VerificationAction::MarkRetryable,
        FailureKind::Deny(_) => VerificationAction::Deny,
        FailureKind::Revoked => VerificationAction::MarkRevoked,
    }
}

/// The reason code a failure reports.
pub open spec fn failure_code(failure: FailureKind) -> ReasonCode {
    match failure {
        FailureKind::Malformed => ReasonCode::Malformed,
        FailureKind::Unsupported(requirement) => unsupported_code(requirement),
        FailureKind::Retry(reason) => retry_code(reason),
        FailureKind::Deny(reason) => denial_code(reason),
        FailureKind::Revoked => ReasonCode::Revoked,
    }
}

/// The decision a failure reports: unsupported and retry keep their own
/// decision, every other failure is a denial.
pub open spec fn failure_decision(failure: FailureKind) -> Decision {
    match failure {
        FailureKind::Unsupported(_) => Decision::Unsupported,
        FailureKind::Retry(_) => Decision::Retry,
        _ => Decision::Deny,
    }
}

/// The report a failure yields.
pub open spec fn failure_report(failure: FailureKind) -> Report {
    (failure_decision(failure), Some(failure_code(failure)))
}

/// The terminal phase a failure enters.
pub open spec fn failure_phase(failure: FailureKind) -> VerificationPhase {
    match failure {
        FailureKind::Malformed => VerificationPhase::Malformed,
        FailureKind::Unsupported(_) => VerificationPhase::Unsupported,
        FailureKind::Retry(_) => VerificationPhase::Retryable,
        FailureKind::Deny(_) => VerificationPhase::Denied,
        FailureKind::Revoked => VerificationPhase::Revoked,
    }
}

impl FailureKind {
    /// The public action this failure is reported under.
    pub fn action(self) -> (r: VerificationAction)
        ensures
            r == failure_action(self),
    {
        match self {
            FailureKind::Malformed => VerificationAction::MarkMalformed,
            FailureKind::Unsupported(_) => VerificationAction::MarkUnsupported,
            FailureKind::Retry(_) => VerificationAction::MarkRetryable,
            FailureKind::Deny(_) => VerificationAction::Deny,
            FailureKind::Revoked => VerificationAction::MarkRevoked,
        }
    }

    /// The reason code this failure reports.
    pub fn reason_code(self) -> (r: ReasonCode)
        ensures
            r == failure_code(self),
    {
        match self {
            FailureKind::Malformed => ReasonCode::Malformed,
            FailureKind::Unsupported(requirement) => requirement.as_reason_code(),
            FailureKind::Retry(reason) => reason.as_reason_code(),
            FailureKind::Deny(reason) => reason.as_reason_code(),
            FailureKind::Revoked => ReasonCode::Revoked,
        }
    }
}

/// The phases in which a request is still being verified.
pub open spec fn active(phase: VerificationPhase) -> bool {
    match phase {
        VerificationPhase::EvidenceReceived
        | VerificationPhase::ChallengeAuthenticated
        | VerificationPhase::FreshnessChecked
        | VerificationPhase::IdentityChecked
        | VerificationPhase::EvidenceAppraised
        | VerificationPhase::SessionBound
        | VerificationPhase::RevocationChecked
        | VerificationPhase::PolicySatisfied => true,
        _ => false,
    }
}

/// Whether `phase` is one in which a request is still being verified.
pub fn is_active_phase(phase: VerificationPhase) -> (r: bool)
    ensures
        r == active(phase),
{
    match phase {
        VerificationPhase::EvidenceReceived
        | VerificationPhase::ChallengeAuthenticated
        | VerificationPhase::FreshnessChecked
        | VerificationPhase::IdentityChecked
        | VerificationPhase::EvidenceAppraised
        | VerificationPhase::SessionBound
        | VerificationPhase::RevocationChecked
        | VerificationPhase::PolicySatisfied => true,
        _ => false,
    }
}

/// The phases in which each failure can arise. An unknown critical
/// requirement and every retry can arise in any active phase; each other
/// failure belongs to the gates whose checks detect it.
pub open spec fn eligible(phase: VerificationPhase, failure: FailureKind) -> bool {
    match failure {
        FailureKind::Malformed => phase == VerificationPhase::EvidenceReceived,
        FailureKind::Unsupported(UnsupportedRequirement::VersionOrProfile) => phase
            == VerificationPhase::ChallengeAuthenticated,
        FailureKind::Unsupported(UnsupportedRequirement::Platform) => phase
            == VerificationPhase::IdentityChecked,
        FailureKind::Unsupported(UnsupportedRequirement::UnknownCriticalRequirement) => active(
            phase,
        ),
        FailureKind::Retry(_) => active(phase),
        FailureKind::Deny(DenialReason::ChallengeAuthenticationFailed) => phase
            == VerificationPhase::EvidenceReceived,
        FailureKind::Deny(DenialReason::NotYetValid)
        | FailureKind::Deny(DenialReason::Expired)
        | FailureKind::Deny(DenialReason::ReplayDetected) => phase
            == VerificationPhase::ChallengeAuthenticated,
        FailureKind::Deny(DenialReason::ContextBindingMismatch) => phase
            == VerificationPhase::ChallengeAuthenticated || phase
            == VerificationPhase::FreshnessChecked || phase == VerificationPhase::EvidenceAppraised,
        FailureKind::Deny(DenialReason::EvidenceInvalid) => phase
            == VerificationPhase::IdentityChecked,
        FailureKind::Deny(DenialReason::PolicyDenied) => phase
            == VerificationPhase::RevocationChecked,
        FailureKind::Deny(DenialReason::ProtectedSessionLost) => phase
            == VerificationPhase::EvidenceAppraised || phase == VerificationPhase::SessionBound
            || phase == VerificationPhase::RevocationChecked || phase
            == VerificationPhase::PolicySatisfied,
        FailureKind::Revoked => phase == VerificationPhase::SessionBound,
    }
}

/// Whether `failure` can be reported in `phase`.
pub fn failure_is_eligible(phase: VerificationPhase, failure: FailureKind) -> (r: bool)
    ensures
        r == eligible(phase, failure),
{
    match failure {
        FailureKind::Malformed => phase == VerificationPhase::EvidenceReceived,
        FailureKind::Unsupported(UnsupportedRequirement::VersionOrProfile) => phase
            == VerificationPhase::ChallengeAuthenticated,
        FailureKind::Unsupported(UnsupportedRequirement::Platform) => phase
            == VerificationPhase::IdentityChecked,
        FailureKind::Unsupported(UnsupportedRequirement::UnknownCriticalRequirement) => is_active_phase(
            phase,
        ),
        FailureKind::Retry(_) => is_active_phase(phase),
        FailureKind::Deny(DenialReason::ChallengeAuthenticationFailed) => phase
            == VerificationPhase::EvidenceReceived,
        FailureKind::Deny(DenialReason::NotYetValid)
        | FailureKind::Deny(DenialReason::Expired)
        | FailureKind::Deny(DenialReason::ReplayDetected) => phase
            == VerificationPhase::ChallengeAuthenticated,
        FailureKind::Deny(DenialReason::ContextBindingMismatch) => phase
            == VerificationPhase::ChallengeAuthenticated || phase
            == VerificationPhase::FreshnessChecked || phase == VerificationPhase::EvidenceAppraised,
        FailureKind::Deny(DenialReason::EvidenceInvalid) => phase
            == VerificationPhase::IdentityChecked,
        FailureKind::Deny(DenialReason::PolicyDenied) => phase
            == VerificationPhase::RevocationChecked,
        FailureKind::Deny(DenialReason::ProtectedSessionLost) => phase
            == VerificationPhase::EvidenceAppraised || phase == VerificationPhase::SessionBound
            || phase == VerificationPhase::RevocationChecked || phase
            == VerificationPhase::PolicySatisfied,
        FailureKind::Revoked => phase == VerificationPhase::SessionBound,
    }
}

/// What one verification attempt was begun for: the challenge's registration.
struct AttemptRecord {
    registration: ReplayRegistration,
}

/// The identity of one verification attempt. Two bindings match only when
/// they share the one allocation made when the attempt began; equal requests
/// begun twice give bindings that do not match.
#[derive(Clone)]
pub struct VerificationBinding(Arc<AttemptRecord>);

/// Whether two attempt records are the same allocation (`Arc::ptr_eq`). Only
/// the same allocation holds the same record, so a `true` result implies
/// equal records; which allocations are distinct is not visible here.
#[verifier::external_body]
fn same_allocation(a: &Arc<AttemptRecord>, b: &Arc<AttemptRecord>) -> (r: bool)
    ensures
        r ==> *a == *b,
{
    Arc::ptr_eq(a, b)
}

/// A second handle on an attempt record (`Arc::clone`): the same allocation,
/// so the same record.
#[verifier::external_body]
fn share(a: &Arc<AttemptRecord>) -> (r: Arc<AttemptRecord>)
    ensures
        r == *a,
{
    Arc::clone(a)
}

impl VerificationBinding {
    /// The registration of the challenge the attempt was begun for.
    pub closed spec fn registration(&self) -> RegistrationView {
        self.0.registration@
    }

    fn new(challenge: &PublisherChallenge) -> (r: VerificationBinding)
        ensures
            r.registration() == challenge_registration(*challenge),
    {
        VerificationBinding(
            Arc::new(AttemptRecord { registration: ReplayRegistration::from_challenge(challenge) }),
        )
    }

    /// Whether `other` is a handle on this same attempt. A match implies
    /// that both were begun for the same challenge registration; whether two
    /// handles share one allocation is an address comparison and is left
    /// unsaid by the contract.
    pub fn matches(&self, other: &VerificationBinding) -> (r: bool)
        ensures
            r ==> *self == *other,
    {
        same_allocation(&self.0, &other.0)
    }

    /// Another handle on this same attempt.
    pub fn share(&self) -> (r: VerificationBinding)
        ensures
            r == *self,
    {
        VerificationBinding(share(&self.0))
    }

    /// The redacted diagnostic text.
    pub fn diagnostic(&self) -> (r: &'static str)
        ensures
            r@ == "VerificationBinding([REDACTED])"@,
    {
        "VerificationBinding([REDACTED])"
    }
}

enum VerificationState {
    EvidenceReceived { request: VerificationRequest },
    ChallengeAuthenticated { request: VerificationRequest },
    FreshnessChecked { request: VerificationRequest },
    IdentityChecked { request: VerificationRequest },
    EvidenceAppraised { request: VerificationRequest, accepted_profile: EvidenceProfile },
    SessionBound {
        request: VerificationRequest,
        accepted_profile: EvidenceProfile,
        session_public_key_id: SessionPublicKeyId,
    },
    RevocationChecked {
        request: VerificationRequest,
        accepted_profile: EvidenceProfile,
        session_public_key_id: SessionPublicKeyId,
    },
    PolicySatisfied {
        request: VerificationRequest,
        accepted_profile: EvidenceProfile,
        session_public_key_id: SessionPublicKeyId,
        allowed: AllowedClass,
    },
    Verified { outcome: VerificationOutcome },
    Malformed { outcome: VerificationOutcome },
    Unsupported { outcome: VerificationOutcome },
    Retryable { outcome: VerificationOutcome },
    Denied { outcome: VerificationOutcome },
    Revoked { outcome: VerificationOutcome },
}

spec fn state_phase(state: VerificationState) -> VerificationPhase {
    match state {
        VerificationState::EvidenceReceived { .. } => VerificationPhase::EvidenceReceived,
        VerificationState::ChallengeAuthenticated { .. } => VerificationPhase::ChallengeAuthenticated,
        VerificationState::FreshnessChecked { .. } => VerificationPhase::FreshnessChecked,
        VerificationState::IdentityChecked { .. } => VerificationPhase::IdentityChecked,
        VerificationState::EvidenceAppraised { .. } => VerificationPhase::EvidenceAppraised,
        VerificationState::SessionBound { .. } => VerificationPhase::SessionBound,
        VerificationState::RevocationChecked { .. } => VerificationPhase::RevocationChecked,
        VerificationState::PolicySatisfied { .. } => VerificationPhase::PolicySatisfied,
        VerificationState::Verified { .. } => VerificationPhase::Verified,
        VerificationState::Malformed { .. } => VerificationPhase::Malformed,
        VerificationState::Unsupported { .. } => VerificationPhase::Unsupported,
        VerificationState::Retryable { .. } => VerificationPhase::Retryable,
        VerificationState::Denied { .. } => VerificationPhase::Denied,
        VerificationState::Revoked { .. } => VerificationPhase::Revoked,
    }
}

spec fn state_request(state: VerificationState) -> Option<VerificationRequest> {
    match state {
        VerificationState::EvidenceReceived { request } => Some(request),
        VerificationState::ChallengeAuthenticated { request } => Some(request),
        VerificationState::FreshnessChecked { request } => Some(request),
        VerificationState::IdentityChecked { request } => Some(request),
        VerificationState::EvidenceAppraised { request, .. } => Some(request),
        VerificationState::SessionBound { request, .. } => Some(request),
        VerificationState::RevocationChecked { request, .. } => Some(request),
        VerificationState::PolicySatisfied { request, .. } => Some(request),
        _ => None,
    }
}

spec fn state_profile(state: VerificationState) -> Option<EvidenceProfile> {
    match state {
        VerificationState::EvidenceAppraised { accepted_profile, .. } => Some(accepted_profile),
        VerificationState::SessionBound { accepted_profile, .. } => Some(accepted_profile),
        VerificationState::RevocationChecked { accepted_profile, .. } => Some(accepted_profile),
        VerificationState::PolicySatisfied { accepted_profile, .. } => Some(accepted_profile),
        _ => None,
    }
}

spec fn state_session_key(state: VerificationState) -> Option<SessionPublicKeyId> {
    match state {
        VerificationState::SessionBound { session_public_key_id, .. } => Some(session_public_key_id),
        VerificationState::RevocationChecked { session_public_key_id, .. } => Some(
            session_public_key_id,
        ),
        VerificationState::PolicySatisfied { session_public_key_id, .. } => Some(
            session_public_key_id,
        ),
        _ => None,
    }
}

spec fn state_allowed(state: VerificationState) -> Option<AllowedClass> {
    match state {
        VerificationState::PolicySatisfied { allowed, .. } => Some(allowed),
        _ => None,
    }
}

spec fn state_outcome(state: VerificationState) -> Option<Report> {
    match state {
        VerificationState::Verified { outcome } => Some(outcome@),
        VerificationState::Malformed { outcome } => Some(outcome@),
        VerificationState::Unsupported { outcome } => Some(outcome@),
        VerificationState::Retryable { outcome } => Some(outcome@),
        VerificationState::Denied { outcome } => Some(outcome@),
        VerificationState::Revoked { outcome } => Some(outcome@),
        _ => None,
    }
}

/// The request a state releases, if it still holds one.
fn release_request(state: VerificationState) -> (r: Option<VerificationRequest>)
    ensures
        r == state_request(state),
{
    match state {
        VerificationState::EvidenceReceived { request } => Some(request),
        VerificationState::ChallengeAuthenticated { request } => Some(request),
        VerificationState::FreshnessChecked { request } => Some(request),
        VerificationState::IdentityChecked { request } => Some(request),
        VerificationState::EvidenceAppraised { request, .. } => Some(request),
        VerificationState::SessionBound { request, .. } => Some(request),
        VerificationState::RevocationChecked { request, .. } => Some(request),
        VerificationState::PolicySatisfied { request, .. } => Some(request),
        _ => None,
    }
}

/// Opaque unsigned semantic result of one verifier appraisal.
pub struct AppraisalResult {
    context: ExpectedContext,
    payload: AppraisalPayload,
}

enum AppraisalPayload {
    Allow(AcceptedClaims),
    AllowRestricted(AcceptedClaims),
    Failure(FailurePayload),
}

/// Accepted claims retained only by an allowed appraisal result.
pub struct AcceptedClaims {
    accepted_profile: EvidenceProfile,
    session_public_key_id: SessionPublicKeyId,
}

#[derive(Clone, Copy)]
struct FailurePayload {
    decision: Decision,
    reason: ReasonCode,
}

/// Borrowed report-only view of an appraisal result.
pub enum AppraisalResultView<'a> {
    /// Full-policy allow with opaque accepted claims.
    Allow(&'a AcceptedClaims),
    /// Restricted-policy allow with opaque accepted claims.
    AllowRestricted(&'a AcceptedClaims),
    /// Unsuccessful report with one coarse reason.
    Failure {
        /// Non-authoritative unsuccessful decision report.
        decision: Decision,
        /// Non-disciplinary reason report.
        reason: ReasonCode,
    },
}

impl AcceptedClaims {
    /// The accepted evidence profile.
    pub closed spec fn profile(&self) -> EvidenceProfile {
        self.accepted_profile
    }

    /// The accepted session public-key lookup handle.
    pub closed spec fn key(&self) -> SessionPublicKeyId {
        self.session_public_key_id
    }

    /// Returns the accepted evidence profile.
    pub fn accepted_profile(&self) -> (r: &EvidenceProfile)
        ensures
            *r == self.profile(),
    {
        &self.accepted_profile
    }

    /// Returns the accepted session public-key lookup handle.
    pub fn session_public_key_id(&self) -> (r: &SessionPublicKeyId)
        ensures
            *r == self.key(),
    {
        &self.session_public_key_id
    }

    /// The redacted diagnostic text.
    pub fn diagnostic(&self) -> (r: &'static str)
        ensures
            r@ == "AcceptedClaims([REDACTED])"@,
    {
        "AcceptedClaims([REDACTED])"
    }
}

impl AppraisalResult {
    /// The relying-party context this result carries.
    pub closed spec fn kept_context(&self) -> ExpectedContext {
        self.context
    }

    /// The decision and reason this result reports.
    pub closed spec fn report(&self) -> Report {
        match self.payload {
            AppraisalPayload::Allow(_) => (Decision::Allow, None),
            AppraisalPayload::AllowRestricted(_) => (Decision::AllowRestricted, None),
            AppraisalPayload::Failure(failure) => (failure.decision, Some(failure.reason)),
        }
    }

    /// The accepted profile and session key, for an allow.
    pub closed spec fn accepted(&self) -> Option<(EvidenceProfile, SessionPublicKeyId)> {
        match self.payload {
            AppraisalPayload::Allow(claims) => Some(
                (claims.accepted_profile, claims.session_public_key_id),
            ),
            AppraisalPayload::AllowRestricted(claims) => Some(
                (claims.accepted_profile, claims.session_public_key_id),
            ),
            AppraisalPayload::Failure(_) => None,
        }
    }

    /// Returns the exact relying-party context retained by this result.
    pub fn context(&self) -> (r: &ExpectedContext)
        ensures
            *r == self.kept_context(),
    {
        &self.context
    }

    /// Returns the non-authoritative decision report.
    pub fn decision(&self) -> (r: Decision)
        ensures
            r == self.report().0,
    {
        match &self.payload {
            AppraisalPayload::Allow(_) => Decision::Allow,
            AppraisalPayload::AllowRestricted(_) => Decision::AllowRestricted,
            AppraisalPayload::Failure(failure) => failure.decision,
        }
    }

    /// Returns no reason for allows and one coarse reason for failures.
    pub fn reason(&self) -> (r: Option<ReasonCode>)
        ensures
            r == self.report().1,
    {
        match &self.payload {
            AppraisalPayload::Allow(_) => None,
            AppraisalPayload::AllowRestricted(_) => None,
            AppraisalPayload::Failure(failure) => Some(failure.reason),
        }
    }

    /// Returns a borrowed report-only view of this result.
    pub fn view(&self) -> (r: AppraisalResultView<'_>)
        ensures
            match r {
                AppraisalResultView::Allow(claims) => self.report() == (Decision::Allow, None::<ReasonCode>)
                    && self.accepted() == Some((claims.profile(), claims.key())),
                AppraisalResultView::AllowRestricted(claims) => self.report() == (
                    Decision::AllowRestricted,
                    None::<ReasonCode>,
                ) && self.accepted() == Some((claims.profile(), claims.key())),
                AppraisalResultView::Failure { decision, reason } => self.report() == (
                    decision,
                    Some(reason),
                ) && self.accepted() is None,
            },
    {
        match &self.payload {
            AppraisalPayload::Allow(claims) => AppraisalResultView::Allow(claims),
            AppraisalPayload::AllowRestricted(claims) => AppraisalResultView::AllowRestricted(claims),
            AppraisalPayload::Failure(failure) => AppraisalResultView::Failure {
                decision: failure.decision,
                reason: failure.reason,
            },
        }
    }

    /// The redacted diagnostic text.
    pub fn diagnostic(&self) -> (r: &'static str)
        ensures
            r@ == "AppraisalResult([REDACTED])"@,
    {
        "AppraisalResult([REDACTED])"
    }
}

impl<'a> AppraisalResultView<'a> {
    /// The redacted diagnostic text.
    pub fn diagnostic(&self) -> (r: &'static str)
        ensures
            r@ == "AppraisalResultView([REDACTED])"@,
    {
        "AppraisalResultView([REDACTED])"
    }
}

/// Opaque proof that the publisher challenge was authenticated for one attempt.
pub struct ChallengeAuthenticated {
    binding: VerificationBinding,
}

/// Opaque proof that trusted identity checks passed for one attempt.
pub struct IdentityChecked {
    binding: VerificationBinding,
}

/// Opaque proof that evidence appraisal passed for one attempt.
///
/// Attempt binding proves flow association, not the truth of the profile
/// supplied by the trusted producer.
pub struct EvidenceAppraised {
    binding: VerificationBinding,
    accepted_profile: EvidenceProfile,
}

/// Opaque proof that the live session was bound to one attempt.
///
/// Attempt binding proves flow association, not the truth of the key handle
/// supplied by the trusted producer.
pub struct SessionBound {
    binding: VerificationBinding,
    session_public_key_id: SessionPublicKeyId,
}

/// Opaque proof that revocation checks passed for one attempt.
pub struct RevocationChecked {
    binding: VerificationBinding,
}

/// Opaque proof that policy selected an allowed class for one attempt.
pub struct PolicySatisfied {
    binding: VerificationBinding,
    allowed: AllowedClass,
}

impl ChallengeAuthenticated {
    /// A capability issued by the challenge check of one attempt.
    ///
    /// This constructor is public: any holder of the attempt's binding can
    /// build the capability, so the transition it unlocks is only as sound as
    /// the caller that builds it once the matching verification step succeeds.
    pub fn for_attempt(binding: VerificationBinding) -> (r: ChallengeAuthenticated)
        ensures
            r.attempt() == binding,
    {
        ChallengeAuthenticated { binding }
    }

    /// The attempt this capability is bound to.
    pub closed spec fn attempt(&self) -> VerificationBinding {
        self.binding
    }

    /// The redacted diagnostic text.
    pub fn diagnostic(&self) -> (r: &'static str)
        ensures
            r@ == "ChallengeAuthenticated([REDACTED])"@,
    {
        "ChallengeAuthenticated([REDACTED])"
    }
}

impl IdentityChecked {
    /// A capability issued by the identity check of one attempt.
    ///
    /// This constructor is public: any holder of the attempt's binding can
    /// build the capability, so the transition it unlocks is only as sound as
    /// the caller that builds it once the matching verification step succeeds.
    pub fn for_attempt(binding: VerificationBinding) -> (r: IdentityChecked)
        ensures
            r.attempt() == binding,
    {
        IdentityChecked { binding }
    }

    /// The attempt this capability is bound to.
    pub closed spec fn attempt(&self) -> VerificationBinding {
        self.binding
    }

    /// The redacted diagnostic text.
    pub fn diagnostic(&self) -> (r: &'static str)
        ensures
            r@ == "IdentityChecked([REDACTED])"@,
    {
        "IdentityChecked([REDACTED])"
    }
}

impl EvidenceAppraised {
    /// A capability issued by the evidence appraisal of one attempt, with
    /// the profile that appraisal accepted.
    ///
    /// This constructor is public: any holder of the attempt's binding can
    /// build the capability, so the transition it unlocks is only as sound as
    /// the caller that builds it once the matching verification step succeeds.
    pub fn for_attempt(binding: VerificationBinding, accepted_profile: EvidenceProfile) -> (r:
        EvidenceAppraised)
        ensures
            r.attempt() == binding,
            r.profile() == accepted_profile,
    {
        EvidenceAppraised { binding, accepted_profile }
    }

    /// The attempt this capability is bound to.
    pub closed spec fn attempt(&self) -> VerificationBinding {
        self.binding
    }

    /// The accepted profile this capability carries.
    pub closed spec fn profile(&self) -> EvidenceProfile {
        self.accepted_profile
    }

    /// The redacted diagnostic text.
    pub fn diagnostic(&self) -> (r: &'static str)
        ensures
            r@ == "EvidenceAppraised([REDACTED])"@,
    {
        "EvidenceAppraised([REDACTED])"
    }
}

impl SessionBound {
    /// A capability issued by the session binding of one attempt, with the
    /// bound session key handle.
    ///
    /// This constructor is public: any holder of the attempt's binding can
    /// build the capability, so the transition it unlocks is only as sound as
    /// the caller that builds it once the matching verification step succeeds.
    pub fn for_attempt(binding: VerificationBinding, session_public_key_id: SessionPublicKeyId) -> (r:
        SessionBound)
        ensures
            r.attempt() == binding,
            r.key() == session_public_key_id,
    {
        SessionBound { binding, session_public_key_id }
    }

    /// The attempt this capability is bound to.
    pub closed spec fn attempt(&self) -> VerificationBinding {
        self.binding
    }

    /// The session key handle this capability carries.
    pub closed spec fn key(&self) -> SessionPublicKeyId {
        self.session_public_key_id
    }

    /// The redacted diagnostic text.
    pub fn diagnostic(&self) -> (r: &'static str)
        ensures
            r@ == "SessionBound([REDACTED])"@,
    {
        "SessionBound([REDACTED])"
    }
}

impl RevocationChecked {
    /// A capability issued by the revocation check of one attempt.
    ///
    /// This constructor is public: any holder of the attempt's binding can
    /// build the capability, so the transition it unlocks is only as sound as
    /// the caller that builds it once the matching verification step succeeds.
    pub fn for_attempt(binding: VerificationBinding) -> (r: RevocationChecked)
        ensures
            r.attempt() == binding,
    {
        RevocationChecked { binding }
    }

    /// The attempt this capability is bound to.
    pub closed spec fn attempt(&self) -> VerificationBinding {
        self.binding
    }

    /// The redacted diagnostic text.
    pub fn diagnostic(&self) -> (r: &'static str)
        ensures
            r@ == "RevocationChecked([REDACTED])"@,
    {
        "RevocationChecked([REDACTED])"
    }
}

impl PolicySatisfied {
    /// A capability issued by the policy check of one attempt, with the
    /// allowed class the policy selected.
    ///
    /// This constructor is public: any holder of the attempt's binding can
    /// build the capability, so the transition it unlocks is only as sound as
    /// the caller that builds it once the matching verification step succeeds.
    pub fn for_attempt(binding: VerificationBinding, allowed: AllowedClass) -> (r: PolicySatisfied)
        ensures
            r.attempt() == binding,
            r.class() == allowed,
    {
        PolicySatisfied { binding, allowed }
    }

    /// The attempt this capability is bound to.
    pub closed spec fn attempt(&self) -> VerificationBinding {
        self.binding
    }

    /// The allowed class this capability carries.
    pub closed spec fn class(&self) -> AllowedClass {
        self.allowed
    }

    /// The redacted diagnostic text.
    pub fn diagnostic(&self) -> (r: &'static str)
        ensures
            r@ == "PolicySatisfied([REDACTED])"@,
    {
        "PolicySatisfied([REDACTED])"
    }
}

/// Opaque non-cloneable proof that every verifier success gate completed.
pub struct VerifiedAttestation {
    binding: VerificationBinding,
    context: ExpectedContext,
    accepted_profile: EvidenceProfile,
    session_public_key_id: SessionPublicKeyId,
    allowed: AllowedClass,
}

impl VerifiedAttestation {
    /// The attempt this attestation completed.
    pub closed spec fn attempt(&self) -> VerificationBinding {
        self.binding
    }

    /// The relying-party context of the completed request.
    pub closed spec fn kept_context(&self) -> ExpectedContext {
        self.context
    }

    /// The accepted evidence profile.
    pub closed spec fn profile(&self) -> EvidenceProfile {
        self.accepted_profile
    }

    /// The bound session key handle.
    pub closed spec fn key(&self) -> SessionPublicKeyId {
        self.session_public_key_id
    }

    /// The allowed class policy selected.
    pub closed spec fn class(&self) -> AllowedClass {
        self.allowed
    }

    /// Consumes completed verifier authority to create the only allowed
    /// result shape: the request's context, the allow of the selected class,
    /// and the accepted claims.
    pub fn into_appraisal_result(self) -> (r: AppraisalResult)
        ensures
            r.kept_context() == self.kept_context(),
            r.report() == allow_report(self.class()),
            r.accepted() == Some((self.profile(), self.key())),
    {
        let VerifiedAttestation {
            binding,
            context,
            accepted_profile,
            session_public_key_id,
            allowed,
        } = self;
        let claims = AcceptedClaims { accepted_profile, session_public_key_id };
        let payload = match allowed {
            AllowedClass::Full => AppraisalPayload::Allow(claims),
            AllowedClass::Restricted => AppraisalPayload::AllowRestricted(claims),
        };
        AppraisalResult { context, payload }
    }

    /// The redacted diagnostic text.
    pub fn diagnostic(&self) -> (r: &'static str)
        ensures
            r@ == "VerifiedAttestation([REDACTED])"@,
    {
        "VerifiedAttestation([REDACTED])"
    }
}

/// A deterministic, non-secret verifier transition failure.
#[derive(Clone, Copy, PartialEq, Eq, Structural)]
pub enum TransitionError {
    /// The action is not valid from the current phase.
    InvalidTransition {
        /// Redacted public phase view.
        phase: VerificationPhase,
        /// Rejected public action.
        action: VerificationAction,
    },
    /// The submitted capability belongs to another verification attempt.
    CapabilityRejected {
        /// Rejected public action.
        action: VerificationAction,
    },
}

impl TransitionError {
    /// The human-readable description of this failure.
    pub fn message(&self) -> (r: String)
        ensures
            r@ == (match *self {
                TransitionError::InvalidTransition { .. } => "verifier transition is not allowed"@,
                TransitionError::CapabilityRejected { .. } => "verifier capability was rejected"@,
            }),
    {
        match self {
            TransitionError::InvalidTransition { .. } => "verifier transition is not allowed".to_owned(),
            TransitionError::CapabilityRejected { .. } => "verifier capability was rejected".to_owned(),
        }
    }

    /// The redacted diagnostic text.
    pub fn diagnostic(&self) -> (r: &'static str)
        ensures
            r@ == (match *self {
                TransitionError::InvalidTransition { .. } => "TransitionError::InvalidTransition([REDACTED])"@,
                TransitionError::CapabilityRejected { .. } => "TransitionError::CapabilityRejected([REDACTED])"@,
            }),
    {
        match self {
            TransitionError::InvalidTransition { .. } => "TransitionError::InvalidTransition([REDACTED])",
            TransitionError::CapabilityRejected { .. } => "TransitionError::CapabilityRejected([REDACTED])",
        }
    }
}

/// One checked verifier attempt over an owned request.
pub struct VerifierFlow {
    binding: VerificationBinding,
    state: VerificationState,
}

/// The phase each gate action is accepted in; `Complete` is accepted after
/// policy satisfaction. Failure actions have no single phase.
pub open spec fn gate_phase(action: VerificationAction) -> VerificationPhase {
    match action {
        VerificationAction::RecordChallengeAuthenticated => VerificationPhase::EvidenceReceived,
        VerificationAction::RecordFreshnessChecked => VerificationPhase::ChallengeAuthenticated,
        VerificationAction::RecordIdentityChecked => VerificationPhase::FreshnessChecked,
        VerificationAction::RecordEvidenceAppraised => VerificationPhase::IdentityChecked,
        VerificationAction::RecordSessionBound => VerificationPhase::EvidenceAppraised,
        VerificationAction::RecordRevocationChecked => VerificationPhase::SessionBound,
        VerificationAction::RecordPolicySatisfied => VerificationPhase::RevocationChecked,
        _ => VerificationPhase::PolicySatisfied,
    }
}

/// The phase each gate action leads to; `Complete` leads to `Verified`.
pub open spec fn gate_next(action: VerificationAction) -> VerificationPhase {
    match action {
        VerificationAction::RecordChallengeAuthenticated => VerificationPhase::ChallengeAuthenticated,
        VerificationAction::RecordFreshnessChecked => VerificationPhase::FreshnessChecked,
        VerificationAction::RecordIdentityChecked => VerificationPhase::IdentityChecked,
        VerificationAction::RecordEvidenceAppraised => VerificationPhase::EvidenceAppraised,
        VerificationAction::RecordSessionBound => VerificationPhase::SessionBound,
        VerificationAction::RecordRevocationChecked => VerificationPhase::RevocationChecked,
        VerificationAction::RecordPolicySatisfied => VerificationPhase::PolicySatisfied,
        _ => VerificationPhase::Verified,
    }
}

/// `after` is the same attempt as `before`, still holding its request, now in
/// active phase `next` with exactly the given claims and no report.
pub open spec fn advanced(
    before: VerifierFlow,
    after: VerifierFlow,
    next: VerificationPhase,
    profile: Option<EvidenceProfile>,
    key: Option<SessionPublicKeyId>,
    allowed: Option<AllowedClass>,
) -> bool {
    &&& after.attempt() == before.attempt()
    &&& after.spec_phase() == next
    &&& after.retained() == before.retained()
    &&& after.claimed_profile() == profile
    &&& after.claimed_key() == key
    &&& after.selected() == allowed
    &&& after.report() is None
}

/// `after` is the same attempt as `before`, ended in terminal `phase` with
/// `report`, retaining neither request nor claims.
pub open spec fn ended(
    before: VerifierFlow,
    after: VerifierFlow,
    phase: VerificationPhase,
    report: Report,
) -> bool {
    &&& after.attempt() == before.attempt()
    &&& after.spec_phase() == phase
    &&& after.report() == Some(report)
    &&& after.retained() is None
    &&& after.claimed_profile() is None
    &&& after.claimed_key() is None
    &&& after.selected() is None
}

/// What a gate action does: outside its phase it is refused and changes
/// nothing; in its phase a capability of another attempt is refused and
/// changes nothing, and one of this attempt advances the flow to the next
/// phase with the given claims.
pub open spec fn gate_taken(
    before: VerifierFlow,
    after: VerifierFlow,
    action: VerificationAction,
    attempt: VerificationBinding,
    r: Result<(), TransitionError>,
    profile: Option<EvidenceProfile>,
    key: Option<SessionPublicKeyId>,
    allowed: Option<AllowedClass>,
) -> bool {
    if before.spec_phase() != gate_phase(action) {
        &&& r == Err::<(), TransitionError>(
            TransitionError::InvalidTransition { phase: before.spec_phase(), action },
        )
        &&& after == before
    } else {
        match r {
            Ok(_) => attempt == before.attempt() && advanced(
                before,
                after,
                gate_next(action),
                profile,
                key,
                allowed,
            ),
            Err(e) => e == TransitionError::CapabilityRejected { action } && after == before,
        }
    }
}

/// What a failure action does: where it is not eligible it is refused and
/// changes nothing; where it is, the flow ends in the failure's terminal with
/// its report, and the result carries the request's context and that report.
pub open spec fn failure_taken(
    before: VerifierFlow,
    after: VerifierFlow,
    failure: FailureKind,
    r: Result<AppraisalResult, TransitionError>,
) -> bool {
    if eligible(before.spec_phase(), failure) {
        &&& r is Ok
        &&& r->Ok_0.kept_context() == before.retained()->0.expected
        &&& r->Ok_0.report() == failure_report(failure)
        &&& r->Ok_0.accepted() is None
        &&& ended(before, after, failure_phase(failure), failure_report(failure))
    } else {
        &&& r is Err
        &&& r->Err_0 == TransitionError::InvalidTransition {
            phase: before.spec_phase(),
            action: failure_action(failure),
        }
        &&& after == before
    }
}

/// What a gate records, with the payload its capability carries.
enum GateInput {
    Challenge,
    Freshness,
    Identity,
    Evidence(EvidenceProfile),
    Session(SessionPublicKeyId),
    Revocation,
    Policy(AllowedClass),
}

spec fn input_action(input: GateInput) -> VerificationAction {
    match input {
        GateInput::Challenge => VerificationAction::RecordChallengeAuthenticated,
        GateInput::Freshness => VerificationAction::RecordFreshnessChecked,
        GateInput::Identity => VerificationAction::RecordIdentityChecked,
        GateInput::Evidence(_) => VerificationAction::RecordEvidenceAppraised,
        GateInput::Session(_) => VerificationAction::RecordSessionBound,
        GateInput::Revocation => VerificationAction::RecordRevocationChecked,
        GateInput::Policy(_) => VerificationAction::RecordPolicySatisfied,
    }
}

spec fn profile_after(before: VerifierFlow, input: GateInput) -> Option<EvidenceProfile> {
    match input {
        GateInput::Evidence(profile) => Some(profile),
        GateInput::Session(_) | GateInput::Revocation | GateInput::Policy(_) => before.claimed_profile(),
        _ => None,
    }
}

spec fn key_after(before: VerifierFlow, input: GateInput) -> Option<SessionPublicKeyId> {
    match input {
        GateInput::Session(key) => Some(key),
        GateInput::Revocation | GateInput::Policy(_) => before.claimed_key(),
        _ => None,
    }
}

spec fn allowed_after(input: GateInput) -> Option<AllowedClass> {
    match input {
        GateInput::Policy(allowed) => Some(allowed),
        _ => None,
    }
}

impl GateInput {
    fn action(&self) -> (r: VerificationAction)
        ensures
            r == input_action(*self),
    {
        match self {
            GateInput::Challenge => VerificationAction::RecordChallengeAuthenticated,
            GateInput::Freshness => VerificationAction::RecordFreshnessChecked,
            GateInput::Identity => VerificationAction::RecordIdentityChecked,
            GateInput::Evidence(_) => VerificationAction::RecordEvidenceAppraised,
            GateInput::Session(_) => VerificationAction::RecordSessionBound,
            GateInput::Revocation => VerificationAction::RecordRevocationChecked,
            GateInput::Policy(_) => VerificationAction::RecordPolicySatisfied,
        }
    }
}

impl VerifierFlow {
    /// The attempt this flow verifies.
    pub closed spec fn attempt(&self) -> VerificationBinding {
        self.binding
    }

    /// The flow's current phase.
    pub closed spec fn spec_phase(&self) -> VerificationPhase {
        state_phase(self.state)
    }

    /// The request the flow still owns.
    pub closed spec fn retained(&self) -> Option<VerificationRequest> {
        state_request(self.state)
    }

    /// The evidence profile accepted so far.
    pub closed spec fn claimed_profile(&self) -> Option<EvidenceProfile> {
        state_profile(self.state)
    }

    /// The session key handle bound so far.
    pub closed spec fn claimed_key(&self) -> Option<SessionPublicKeyId> {
        state_session_key(self.state)
    }

    /// The allowed class policy selected so far.
    pub closed spec fn selected(&self) -> Option<AllowedClass> {
        state_allowed(self.state)
    }

    /// The terminal report, once the flow has ended.
    pub closed spec fn report(&self) -> Option<Report> {
        state_outcome(self.state)
    }

    /// Begins one verification attempt and owns its exact request.
    pub fn begin(request: VerificationRequest) -> (r: VerifierFlow)
        ensures
            r.attempt().registration() == challenge_registration(request.challenge),
            r.spec_phase() == VerificationPhase::EvidenceReceived,
            r.retained() == Some(request),
            r.claimed_profile() is None,
            r.claimed_key() is None,
            r.selected() is None,
            r.report() is None,
    {
        let binding = VerificationBinding::new(&request.challenge);
        VerifierFlow { binding, state: VerificationState::EvidenceReceived { request } }
    }

    /// Another handle on this flow's attempt, from which its gate
    /// capabilities are issued.
    ///
    /// It is public, so whoever holds the flow can mint capabilities bound to
    /// its attempt.
    pub fn attempt_binding(&self) -> (r: VerificationBinding)
        ensures
            r == self.attempt(),
    {
        self.binding.share()
    }

    /// Returns the redacted current phase.
    pub fn phase(&self) -> (r: VerificationPhase)
        ensures
            r == self.spec_phase(),
    {
        match &self.state {
            VerificationState::EvidenceReceived { .. } => VerificationPhase::EvidenceReceived,
            VerificationState::ChallengeAuthenticated { .. } => VerificationPhase::ChallengeAuthenticated,
            VerificationState::FreshnessChecked { .. } => VerificationPhase::FreshnessChecked,
            VerificationState::IdentityChecked { .. } => VerificationPhase::IdentityChecked,
            VerificationState::EvidenceAppraised { .. } => VerificationPhase::EvidenceAppraised,
            VerificationState::SessionBound { .. } => VerificationPhase::SessionBound,
            VerificationState::RevocationChecked { .. } => VerificationPhase::RevocationChecked,
            VerificationState::PolicySatisfied { .. } => VerificationPhase::PolicySatisfied,
            VerificationState::Verified { .. } => VerificationPhase::Verified,
            VerificationState::Malformed { .. } => VerificationPhase::Malformed,
            VerificationState::Unsupported { .. } => VerificationPhase::Unsupported,
            VerificationState::Retryable { .. } => VerificationPhase::Retryable,
            VerificationState::Denied { .. } => VerificationPhase::Denied,
            VerificationState::Revoked { .. } => VerificationPhase::Revoked,
        }
    }

    /// Returns a report only after the flow reaches a terminal.
    pub fn outcome(&self) -> (r: Option<VerificationOutcome>)
        ensures
            match r {
                Some(outcome) => self.report() == Some(outcome@),
                None => self.report() is None,
            },
    {
        match &self.state {
            VerificationState::Verified { outcome } => Some(*outcome),
            VerificationState::Malformed { outcome } => Some(*outcome),
            VerificationState::Unsupported { outcome } => Some(*outcome),
            VerificationState::Retryable { outcome } => Some(*outcome),
            VerificationState::Denied { outcome } => Some(*outcome),
            VerificationState::Revoked { outcome } => Some(*outcome),
            _ => None,
        }
    }

    /// The request the flow still owns, for inspection.
    pub fn retained_request(&self) -> (r: Option<&VerificationRequest>)
        ensures
            match r {
                Some(request) => self.retained() == Some(*request),
                None => self.retained() is None,
            },
    {
        match &self.state {
            VerificationState::EvidenceReceived { request } => Some(request),
            VerificationState::ChallengeAuthenticated { request } => Some(request),
            VerificationState::FreshnessChecked { request } => Some(request),
            VerificationState::IdentityChecked { request } => Some(request),
            VerificationState::EvidenceAppraised { request, .. } => Some(request),
            VerificationState::SessionBound { request, .. } => Some(request),
            VerificationState::RevocationChecked { request, .. } => Some(request),
            VerificationState::PolicySatisfied { request, .. } => Some(request),
            _ => None,
        }
    }

    /// The accepted evidence profile the flow holds, for inspection.
    pub fn retained_profile(&self) -> (r: Option<&EvidenceProfile>)
        ensures
            match r {
                Some(profile) => self.claimed_profile() == Some(*profile),
                None => self.claimed_profile() is None,
            },
    {
        match &self.state {
            VerificationState::EvidenceAppraised { accepted_profile, .. } => Some(accepted_profile),
            VerificationState::SessionBound { accepted_profile, .. } => Some(accepted_profile),
            VerificationState::RevocationChecked { accepted_profile, .. } => Some(accepted_profile),
            VerificationState::PolicySatisfied { accepted_profile, .. } => Some(accepted_profile),
            _ => None,
        }
    }

    /// The bound session key handle the flow holds, for inspection.
    pub fn retained_session_key(&self) -> (r: Option<SessionPublicKeyId>)
        ensures
            r == self.claimed_key(),
    {
        match &self.state {
            VerificationState::SessionBound { session_public_key_id, .. } => Some(
                *session_public_key_id,
            ),
            VerificationState::RevocationChecked { session_public_key_id, .. } => Some(
                *session_public_key_id,
            ),
            VerificationState::PolicySatisfied { session_public_key_id, .. } => Some(
                *session_public_key_id,
            ),
            _ => None,
        }
    }

    /// The allowed class the flow holds, for inspection.
    pub fn retained_allowed(&self) -> (r: Option<AllowedClass>)
        ensures
            r == self.selected(),
    {
        match &self.state {
            VerificationState::PolicySatisfied { allowed, .. } => Some(*allowed),
            _ => None,
        }
    }

    /// Replaces the state with a retryable terminal and hands back the old
    /// state, so that no active state is ever duplicated.
    fn take_state(&mut self) -> (previous: VerificationState)
        ensures
            previous == old(self).state,
            final(self).binding == old(self).binding,
    {
        let mut previous = VerificationState::Retryable {
            outcome: VerificationOutcome::failed(FailureKind::Retry(RetryReason::TransientFailure)),
        };
        std::mem::swap(&mut self.state, &mut previous);
        previous
    }

    fn invalid_transition(&self, action: VerificationAction) -> (r: TransitionError)
        ensures
            r == (TransitionError::InvalidTransition { phase: self.spec_phase(), action }),
    {
        TransitionError::InvalidTransition { phase: self.phase(), action }
    }

    /// The transition once the capability's binding has been compared with
    /// this attempt's: a matching binding advances the flow to the next phase
    /// with the claims the capability carries; a binding of another attempt
    /// yields `CapabilityRejected` and leaves the flow as it was.
    fn take_gate(&mut self, input: GateInput, matched: bool) -> (r: Result<(), TransitionError>)
        requires
            old(self).spec_phase() == gate_phase(input_action(input)),
        ensures
            matched ==> r is Ok && advanced(
                *old(self),
                *final(self),
                gate_next(input_action(input)),
                profile_after(*old(self), input),
                key_after(*old(self), input),
                allowed_after(input),
            ),
            !matched ==> r == Err::<(), TransitionError>(
                TransitionError::CapabilityRejected { action: input_action(input) },
            ) && *final(self) == *old(self),
    {
        let action = input.action();
        if !matched {
            return Err(TransitionError::CapabilityRejected { action });
        }
        let previous = self.take_state();
        self.state = match (previous, input) {
            (VerificationState::EvidenceReceived { request }, GateInput::Challenge) => VerificationState::ChallengeAuthenticated {
                request,
            },
            (VerificationState::ChallengeAuthenticated { request }, GateInput::Freshness) => VerificationState::FreshnessChecked {
                request,
            },
            (VerificationState::FreshnessChecked { request }, GateInput::Identity) => VerificationState::IdentityChecked {
                request,
            },
            (
                VerificationState::IdentityChecked { request },
                GateInput::Evidence(accepted_profile),
            ) => VerificationState::EvidenceAppraised { request, accepted_profile },
            (
                VerificationState::EvidenceAppraised { request, accepted_profile },
                GateInput::Session(session_public_key_id),
            ) => VerificationState::SessionBound {
                request,
                accepted_profile,
                session_public_key_id,
            },
            (
                VerificationState::SessionBound { request, accepted_profile, session_public_key_id },
                GateInput::Revocation,
            ) => VerificationState::RevocationChecked {
                request,
                accepted_profile,
                session_public_key_id,
            },
            (
                VerificationState::RevocationChecked {
                    request,
                    accepted_profile,
                    session_public_key_id,
                },
                GateInput::Policy(allowed),
            ) => VerificationState::PolicySatisfied {
                request,
                accepted_profile,
                session_public_key_id,
                allowed,
            },
            (other, _) => other,
        };
        Ok(())
    }

    /// Records authenticated challenge handling for this attempt.
    pub fn record_challenge_authenticated(&mut self, capability: ChallengeAuthenticated) -> (r:
        Result<(), TransitionError>)
        ensures
            gate_taken(
                *old(self),
                *final(self),
                VerificationAction::RecordChallengeAuthenticated,
                capability.attempt(),
                r,
                None,
                None,
                None,
            ),
    {
        let action = VerificationAction::RecordChallengeAuthenticated;
        if self.phase() != VerificationPhase::EvidenceReceived {
            return Err(self.invalid_transition(action));
        }
        let matched = self.binding.matches(&capability.binding);
        self.take_gate(GateInput::Challenge, matched)
    }

    /// Records freshness and replay checks for this attempt.
    pub fn record_freshness_checked(&mut self, capability: FreshnessChecked) -> (r: Result<
        (),
        TransitionError,
    >)
        ensures
            gate_taken(
                *old(self),
                *final(self),
                VerificationAction::RecordFreshnessChecked,
                capability.attempt(),
                r,
                None,
                None,
                None,
            ),
    {
        let action = VerificationAction::RecordFreshnessChecked;
        if self.phase() != VerificationPhase::ChallengeAuthenticated {
            return Err(self.invalid_transition(action));
        }
        let matched = self.binding.matches(capability.binding());
        self.take_gate(GateInput::Freshness, matched)
    }

    /// Records trusted identity checks for this attempt.
    pub fn record_identity_checked(&mut self, capability: IdentityChecked) -> (r: Result<
        (),
        TransitionError,
    >)
        ensures
            gate_taken(
                *old(self),
                *final(self),
                VerificationAction::RecordIdentityChecked,
                capability.attempt(),
                r,
                None,
                None,
                None,
            ),
    {
        let action = VerificationAction::RecordIdentityChecked;
        if self.phase() != VerificationPhase::FreshnessChecked {
            return Err(self.invalid_transition(action));
        }
        let matched = self.binding.matches(&capability.binding);
        self.take_gate(GateInput::Identity, matched)
    }

    /// Records evidence appraisal for this attempt, keeping the accepted
    /// profile.
    pub fn record_evidence_appraised(&mut self, capability: EvidenceAppraised) -> (r: Result<
        (),
        TransitionError,
    >)
        ensures
            gate_taken(
                *old(self),
                *final(self),
                VerificationAction::RecordEvidenceAppraised,
                capability.attempt(),
                r,
                Some(capability.profile()),
                None,
                None,
            ),
    {
        let action = VerificationAction::RecordEvidenceAppraised;
        if self.phase() != VerificationPhase::IdentityChecked {
            return Err(self.invalid_transition(action));
        }
        let matched = self.binding.matches(&capability.binding);
        self.take_gate(GateInput::Evidence(capability.accepted_profile), matched)
    }

    /// Records live-session binding for this attempt, keeping the bound key
    /// handle.
    pub fn record_session_bound(&mut self, capability: SessionBound) -> (r: Result<
        (),
        TransitionError,
    >)
        ensures
            gate_taken(
                *old(self),
                *final(self),
                VerificationAction::RecordSessionBound,
                capability.attempt(),
                r,
                old(self).claimed_profile(),
                Some(capability.key()),
                None,
            ),
    {
        let action = VerificationAction::RecordSessionBound;
        if self.phase() != VerificationPhase::EvidenceAppraised {
            return Err(self.invalid_transition(action));
        }
        let matched = self.binding.matches(&capability.binding);
        self.take_gate(GateInput::Session(capability.session_public_key_id), matched)
    }

    /// Records revocation checks for this attempt.
    pub fn record_revocation_checked(&mut self, capability: RevocationChecked) -> (r: Result<
        (),
        TransitionError,
    >)
        ensures
            gate_taken(
                *old(self),
                *final(self),
                VerificationAction::RecordRevocationChecked,
                capability.attempt(),
                r,
                old(self).claimed_profile(),
                old(self).claimed_key(),
                None,
            ),
    {
        let action = VerificationAction::RecordRevocationChecked;
        if self.phase() != VerificationPhase::SessionBound {
            return Err(self.invalid_transition(action));
        }
        let matched = self.binding.matches(&capability.binding);
        self.take_gate(GateInput::Revocation, matched)
    }

    /// Records policy satisfaction and the selected allowed class.
    pub fn record_policy_satisfied(&mut self, capability: PolicySatisfied) -> (r: Result<
        (),
        TransitionError,
    >)
        ensures
            gate_taken(
                *old(self),
                *final(self),
                VerificationAction::RecordPolicySatisfied,
                capability.attempt(),
                r,
                old(self).claimed_profile(),
                old(self).claimed_key(),
                Some(capability.class()),
            ),
    {
        let action = VerificationAction::RecordPolicySatisfied;
        if self.phase() != VerificationPhase::RevocationChecked {
            return Err(self.invalid_transition(action));
        }
        let matched = self.binding.matches(&capability.binding);
        self.take_gate(GateInput::Policy(capability.allowed), matched)
    }

    /// Completes the fully gated path and releases the owned raw request.
    /// Only after policy satisfaction does it succeed: the flow ends in
    /// `Verified` with the allow of the selected class, and the attestation
    /// carries the request's context and the accepted claims.
    pub fn complete(&mut self) -> (r: Result<VerifiedAttestation, TransitionError>)
        ensures
            old(self).spec_phase() != VerificationPhase::PolicySatisfied ==> {
                &&& r is Err
                &&& r->Err_0 == TransitionError::InvalidTransition {
                    phase: old(self).spec_phase(),
                    action: VerificationAction::Complete,
                }
                &&& *final(self) == *old(self)
            },
            old(self).spec_phase() == VerificationPhase::PolicySatisfied ==> {
                &&& r is Ok
                &&& r->Ok_0.attempt() == old(self).attempt()
                &&& r->Ok_0.kept_context() == old(self).retained()->0.expected
                &&& r->Ok_0.profile() == old(self).claimed_profile()->0
                &&& r->Ok_0.key() == old(self).claimed_key()->0
                &&& r->Ok_0.class() == old(self).selected()->0
                &&& ended(
                    *old(self),
                    *final(self),
                    VerificationPhase::Verified,
                    allow_report(old(self).selected()->0),
                )
            },
    {
        if self.phase() != VerificationPhase::PolicySatisfied {
            return Err(self.invalid_transition(VerificationAction::Complete));
        }
        let previous = self.take_state();
        match previous {
            VerificationState::PolicySatisfied {
                request,
                accepted_profile,
                session_public_key_id,
                allowed,
            } => {
                self.state = VerificationState::Verified {
                    outcome: VerificationOutcome::allowed(allowed),
                };
                Ok(
                    VerifiedAttestation {
                        binding: self.binding.share(),
                        context: request.expected,
                        accepted_profile,
                        session_public_key_id,
                        allowed,
                    },
                )
            },
            other => {
                self.state = other;
                Err(self.invalid_transition(VerificationAction::Complete))
            },
        }
    }

    /// Terminates this attempt because its input was malformed.
    pub fn mark_malformed(&mut self) -> (r: Result<AppraisalResult, TransitionError>)
        ensures
            failure_taken(*old(self), *final(self), FailureKind::Malformed, r),
    {
        self.emit_failure(FailureKind::Malformed)
    }

    /// Terminates this attempt because a mandatory feature was unsupported.
    pub fn mark_unsupported(&mut self, requirement: UnsupportedRequirement) -> (r: Result<
        AppraisalResult,
        TransitionError,
    >)
        ensures
            failure_taken(*old(self), *final(self), FailureKind::Unsupported(requirement), r),
    {
        self.emit_failure(FailureKind::Unsupported(requirement))
    }

    /// Terminates this attempt with a retryable unavailable result.
    pub fn mark_retryable(&mut self, reason: RetryReason) -> (r: Result<
        AppraisalResult,
        TransitionError,
    >)
        ensures
            failure_taken(*old(self), *final(self), FailureKind::Retry(reason), r),
    {
        self.emit_failure(FailureKind::Retry(reason))
    }

    /// Terminates this attempt with one fixed typed denial reason.
    pub fn deny(&mut self, reason: DenialReason) -> (r: Result<AppraisalResult, TransitionError>)
        ensures
            failure_taken(*old(self), *final(self), FailureKind::Deny(reason), r),
    {
        self.emit_failure(FailureKind::Deny(reason))
    }

    /// Terminates this attempt because a required input was revoked.
    pub fn mark_revoked(&mut self) -> (r: Result<AppraisalResult, TransitionError>)
        ensures
            failure_taken(*old(self), *final(self), FailureKind::Revoked, r),
    {
        self.emit_failure(FailureKind::Revoked)
    }

    /// Enters the terminal of `failure` when it is eligible in the current
    /// phase, releasing the request into the failure result.
    pub fn emit_failure(&mut self, failure: FailureKind) -> (r: Result<
        AppraisalResult,
        TransitionError,
    >)
        ensures
            failure_taken(*old(self), *final(self), failure, r),
    {
        let action = failure.action();
        let phase = self.phase();
        if !failure_is_eligible(phase, failure) {
            return Err(TransitionError::InvalidTransition { phase, action });
        }
        let outcome = VerificationOutcome::failed(failure);
        let decision = outcome.decision;
        let reason = failure.reason_code();
        let mut previous = match failure {
            FailureKind::Malformed => VerificationState::Malformed { outcome },
            FailureKind::Unsupported(_) => VerificationState::Unsupported { outcome },
            FailureKind::Retry(_) => VerificationState::Retryable { outcome },
            FailureKind::Deny(_) => VerificationState::Denied { outcome },
            FailureKind::Revoked => VerificationState::Revoked { outcome },
        };
        std::mem::swap(&mut self.state, &mut previous);
        match release_request(previous) {
            Some(request) => Ok(
                AppraisalResult {
                    context: request.expected,
                    payload: AppraisalPayload::Failure(FailurePayload { decision, reason }),
                },
            ),
            None => Err(TransitionError::InvalidTransition { phase, action }),
        }
    }
}

/// The name of a phase as the flow's diagnostic spells it.
pub open spec fn phase_name(phase: VerificationPhase) -> Seq<char> {
    match phase {
        VerificationPhase::EvidenceReceived => "EvidenceReceived"@,
        VerificationPhase::ChallengeAuthenticated => "ChallengeAuthenticated"@,
        VerificationPhase::FreshnessChecked => "FreshnessChecked"@,
        VerificationPhase::IdentityChecked => "IdentityChecked"@,
        VerificationPhase::EvidenceAppraised => "EvidenceAppraised"@,
        VerificationPhase::SessionBound => "SessionBound"@,
        VerificationPhase::RevocationChecked => "RevocationChecked"@,
        VerificationPhase::PolicySatisfied => "PolicySatisfied"@,
        VerificationPhase::Verified => "Verified"@,
        VerificationPhase::Malformed => "Malformed"@,
        VerificationPhase::Unsupported => "Unsupported"@,
        VerificationPhase::Retryable => "Retryable"@,
        VerificationPhase::Denied => "Denied"@,
        VerificationPhase::Revoked => "Revoked"@,
    }
}

/// The name of a decision as the flow's diagnostic spells it.
pub open spec fn decision_name(decision: Decision) -> Seq<char> {
    match decision {
        Decision::Allow => "Allow"@,
        Decision::AllowRestricted => "AllowRestricted"@,
        Decision::Deny => "Deny"@,
        Decision::Unsupported => "Unsupported"@,
        Decision::Retry => "Retry"@,
    }
}

/// The name of a reason code as the flow's diagnostic spells it.
pub open spec fn reason_name(reason: ReasonCode) -> Seq<char> {
    match reason {
        ReasonCode::Malformed => "Malformed"@,
        ReasonCode::UnsupportedVersionOrProfile => "UnsupportedVersionOrProfile"@,
        ReasonCode::UnsupportedPlatform => "UnsupportedPlatform"@,
        ReasonCode::UnsupportedCriticalRequirement => "UnsupportedCriticalRequirement"@,
        ReasonCode::AttestationUnavailable => "AttestationUnavailable"@,
        ReasonCode::TransientFailure => "TransientFailure"@,
        ReasonCode::ChallengeAuthenticationFailed => "ChallengeAuthenticationFailed"@,
        ReasonCode::NotYetValid => "NotYetValid"@,
        ReasonCode::Expired => "Expired"@,
        ReasonCode::ReplayDetected => "ReplayDetected"@,
        ReasonCode::ContextBindingMismatch => "ContextBindingMismatch"@,
        ReasonCode::EvidenceInvalid => "EvidenceInvalid"@,
        ReasonCode::PolicyDenied => "PolicyDenied"@,
        ReasonCode::ProtectedSessionLost => "ProtectedSessionLost"@,
        ReasonCode::Revoked => "Revoked"@,
    }
}

/// The diagnostic of a report: its decision and reason by name, nothing of
/// the request.
pub open spec fn report_text(report: Option<Report>) -> Seq<char> {
    match report {
        None => "None"@,
        Some((decision, reason)) => "Some(VerificationOutcome { decision: "@ + decision_name(
            decision,
        ) + ", reason: "@ + match reason {
            None => "None"@,
            Some(code) => "Some("@ + reason_name(code) + ")"@,
        } + " })"@,
    }
}

/// The flow's diagnostic: its phase and report, nothing of the request.
pub open spec fn flow_text(phase: VerificationPhase, report: Option<Report>) -> Seq<char> {
    "VerifierFlow { phase: "@ + phase_name(phase) + ", outcome: "@ + report_text(report) + " }"@
}

fn phase_label(phase: VerificationPhase) -> (r: &'static str)
    ensures
        r@ == phase_name(phase),
{
    match phase {
        VerificationPhase::EvidenceReceived => "EvidenceReceived",
        VerificationPhase::ChallengeAuthenticated => "ChallengeAuthenticated",
        VerificationPhase::FreshnessChecked => "FreshnessChecked",
        VerificationPhase::IdentityChecked => "IdentityChecked",
        VerificationPhase::EvidenceAppraised => "EvidenceAppraised",
        VerificationPhase::SessionBound => "SessionBound",
        VerificationPhase::RevocationChecked => "RevocationChecked",
        VerificationPhase::PolicySatisfied => "PolicySatisfied",
        VerificationPhase::Verified => "Verified",
        VerificationPhase::Malformed => "Malformed",
        VerificationPhase::Unsupported => "Unsupported",
        VerificationPhase::Retryable => "Retryable",
        VerificationPhase::Denied => "Denied",
        VerificationPhase::Revoked => "Revoked",
    }
}

fn decision_label(decision: Decision) -> (r: &'static str)
    ensures
        r@ == decision_name(decision),
{
    match decision {
        Decision::Allow => "Allow",
        Decision::AllowRestricted => "AllowRestricted",
        Decision::Deny => "Deny",
        Decision::Unsupported => "Unsupported",
        Decision::Retry => "Retry",
    }
}

fn reason_label(reason: ReasonCode) -> (r: &'static str)
    ensures
        r@ == reason_name(reason),
{
    match reason {
        ReasonCode::Malformed => "Malformed",
        ReasonCode::UnsupportedVersionOrProfile => "UnsupportedVersionOrProfile",
        ReasonCode::UnsupportedPlatform => "UnsupportedPlatform",
        ReasonCode::UnsupportedCriticalRequirement => "UnsupportedCriticalRequirement",
        ReasonCode::AttestationUnavailable => "AttestationUnavailable",
        ReasonCode::TransientFailure => "TransientFailure",
        ReasonCode::ChallengeAuthenticationFailed => "ChallengeAuthenticationFailed",
        ReasonCode::NotYetValid => "NotYetValid",
        ReasonCode::Expired => "Expired",
        ReasonCode::ReplayDetected => "ReplayDetected",
        ReasonCode::ContextBindingMismatch => "ContextBindingMismatch",
        ReasonCode::EvidenceInvalid => "EvidenceInvalid",
        ReasonCode::PolicyDenied => "PolicyDenied",
        ReasonCode::ProtectedSessionLost => "ProtectedSessionLost",
        ReasonCode::Revoked => "Revoked",
    }
}

impl VerifierFlow {
    /// The redacted diagnostic text: the phase and the terminal report.
    pub fn diagnostic(&self) -> (r: String)
        ensures
            r@ == flow_text(self.spec_phase(), self.report()),
    {
        let mut text = String::new();
        push_text(&mut text, "VerifierFlow { phase: ");
        push_text(&mut text, phase_label(self.phase()));
        push_text(&mut text, ", outcome: ");
        match self.outcome() {
            None => push_text(&mut text, "None"),
            Some(outcome) => {
                push_text(&mut text, "Some(VerificationOutcome { decision: ");
                push_text(&mut text, decision_label(outcome.decision));
                push_text(&mut text, ", reason: ");
                match outcome.reason {
                    None => push_text(&mut text, "None"),
                    Some(code) => {
                        push_text(&mut text, "Some(");
                        push_text(&mut text, reason_label(code));
                        push_text(&mut text, ")");
                    },
                }
                push_text(&mut text, " })");
            },
        }
        push_text(&mut text, " }");
        proof {
            assert(text@ =~= flow_text(self.spec_phase(), self.report()));
        }
        text
    }
}

/// The report a freshness failure maps to: an invalid or overlong window is
/// malformed; a window not yet open, expired, or replayed is denied with the
/// same reason; a clock rollback or unavailable or exhausted state is a retry.
pub open spec fn freshness_report(error: FreshnessError) -> Report {
    match error {
        FreshnessError::InvalidWindow | FreshnessError::LifetimeExceeded => failure_report(
            FailureKind::Malformed,
        ),
        FreshnessError::NotYetValid => failure_report(FailureKind::Deny(DenialReason::NotYetValid)),
        FreshnessError::Expired => failure_report(FailureKind::Deny(DenialReason::Expired)),
        FreshnessError::ReplayDetected => failure_report(
            FailureKind::Deny(DenialReason::ReplayDetected),
        ),
        FreshnessError::ClockRollback
        | FreshnessError::StateUnavailable
        | FreshnessError::CapacityExceeded => failure_report(
            FailureKind::Retry(RetryReason::AttestationUnavailable),
        ),
    }
}

/// The outcome a freshness failure maps to.
pub fn freshness_failure(error: FreshnessError) -> (r: VerificationOutcome)
    ensures
        r@ == freshness_report(error),
{
    match error {
        FreshnessError::InvalidWindow | FreshnessError::LifetimeExceeded => VerificationOutcome::failed(
            FailureKind::Malformed,
        ),
        FreshnessError::NotYetValid => VerificationOutcome::failed(
            FailureKind::Deny(DenialReason::NotYetValid),
        ),
        FreshnessError::Expired => VerificationOutcome::failed(
            FailureKind::Deny(DenialReason::Expired),
        ),
        FreshnessError::ReplayDetected => VerificationOutcome::failed(
            FailureKind::Deny(DenialReason::ReplayDetected),
        ),
        FreshnessError::ClockRollback
        | FreshnessError::StateUnavailable
        | FreshnessError::CapacityExceeded => VerificationOutcome::failed(
            FailureKind::Retry(RetryReason::AttestationUnavailable),
        ),
    }
}

/// Whether the relying party's expected context is the challenge's own:
/// the same publisher, game, build, account, match, policy and version.
pub open spec fn context_matches(expected: ExpectedContext, challenge: PublisherChallenge) -> bool {
    &&& expected.publisher_id@ == challenge.publisher_id@
    &&& expected.game_id@ == challenge.game_id@
    &&& expected.build_id@ == challenge.build_id@
    &&& expected.account_scope@ == challenge.account_scope@
    &&& expected.match_id@ == challenge.match_id@
    &&& expected.policy_id@ == challenge.policy_id@
    &&& expected.policy_version == challenge.policy_version
}

/// The report of the implemented structural checks, given what the replay
/// store answered: `window` is the outcome of observing time and checking the
/// challenge window, `claim` that of the atomic claim. A failed window check
/// is reported first, then a context mismatch, then a failed claim; when all
/// pass the attempt is still denied, since evidence is not appraised here.
pub open spec fn structure_report(
    window: Result<(), FreshnessError>,
    context_ok: bool,
    claim: Result<(), FreshnessError>,
) -> Report {
    match window {
        Err(error) => freshness_report(error),
        Ok(_) => if !context_ok {
            failure_report(FailureKind::Deny(DenialReason::ContextBindingMismatch))
        } else {
            match claim {
                Err(error) => freshness_report(error),
                Ok(_) => failure_report(FailureKind::Deny(DenialReason::EvidenceInvalid)),
            }
        },
    }
}

/// The outcome of the structural checks for the given store answers.
pub fn structure_outcome(
    window: Result<(), FreshnessError>,
    context_ok: bool,
    claim: Result<(), FreshnessError>,
) -> (r: VerificationOutcome)
    ensures
        r@ == structure_report(window, context_ok, claim),
{
    match window {
        Err(error) => freshness_failure(error),
        Ok(()) => if !context_ok {
            VerificationOutcome::failed(FailureKind::Deny(DenialReason::ContextBindingMismatch))
        } else {
            match claim {
                Err(error) => freshness_failure(error),
                Ok(()) => VerificationOutcome::failed(
                    FailureKind::Deny(DenialReason::EvidenceInvalid),
                ),
            }
        },
    }
}

/// Whether the expected context is the challenge's own.
pub fn contexts_agree(expected: &ExpectedContext, challenge: &PublisherChallenge) -> (r: bool)
    ensures
        r == context_matches(*expected, *challenge),
{
    expected.publisher_id.same(&challenge.publisher_id) && expected.game_id.same(
        &challenge.game_id,
    ) && expected.build_id.same(&challenge.build_id) && expected.account_scope.same(
        &challenge.account_scope,
    ) && expected.match_id.same(&challenge.match_id) && expected.policy_id.same(
        &challenge.policy_id,
    ) && expected.policy_version.value == challenge.policy_version.value
}

/// Performs the implemented freshness and relying-party context checks.
///
/// Publisher-signature authentication, evidence appraisal and policy
/// evaluation are not implemented here, so this never allows: the outcome is
/// the structural report of the store's answers, where a window check the
/// store let through agrees with the challenge's window, and the claim is
/// attempted only when the window and the context passed.
pub fn verify_research_structure<Store: ReplayStore + ?Sized>(
    request: &VerificationRequest,
    freshness: &FreshnessGuard<'_, Store>,
) -> (r: VerificationOutcome)
    ensures
        exists|window: Result<(), FreshnessError>, claim: Result<(), FreshnessError>|
            {
                &&& (window is Ok ==> spec_evaluate(request.challenge.window, request.now.seconds) is Ok)
                &&& r@ == structure_report(
                    window,
                    context_matches(request.expected, request.challenge),
                    claim,
                )
            },
        r@.0 != Decision::Allow,
        r@.0 != Decision::AllowRestricted,
{
    let window = freshness.evaluate_window(request.now, &request.challenge);
    let context_ok = contexts_agree(&request.expected, &request.challenge);
    let claim = if window.is_ok() && context_ok {
        freshness.claim(request.now, &request.challenge)
    } else {
        Ok(())
    };
    structure_outcome(window, context_ok, claim)
}

/// The success path: the seven gates in their one order, then completion.
pub open spec fn canonical_action(i: int) -> VerificationAction {
    if i == 0 {
        VerificationAction::RecordChallengeAuthenticated
    } else if i == 1 {
        VerificationAction::RecordFreshnessChecked
    } else if i == 2 {
        VerificationAction::RecordIdentityChecked
    } else if i == 3 {
        VerificationAction::RecordEvidenceAppraised
    } else if i == 4 {
        VerificationAction::RecordSessionBound
    } else if i == 5 {
        VerificationAction::RecordRevocationChecked
    } else if i == 6 {
        VerificationAction::RecordPolicySatisfied
    } else {
        VerificationAction::Complete
    }
}

/// Whether `action` is a gate or the completion.
pub open spec fn success_action(action: VerificationAction) -> bool {
    match action {
        VerificationAction::RecordChallengeAuthenticated
        | VerificationAction::RecordFreshnessChecked
        | VerificationAction::RecordIdentityChecked
        | VerificationAction::RecordEvidenceAppraised
        | VerificationAction::RecordSessionBound
        | VerificationAction::RecordRevocationChecked
        | VerificationAction::RecordPolicySatisfied
        | VerificationAction::Complete => true,
        _ => false,
    }
}

/// The phase reached by taking the success actions `actions` in turn from
/// `start`, each accepted only in its own phase; `None` once one is refused.
pub open spec fn run_phase(start: VerificationPhase, actions: Seq<VerificationAction>) -> Option<
    VerificationPhase,
>
    decreases actions.len(),
{
    if actions.len() == 0 {
        Some(start)
    } else {
        match run_phase(start, actions.drop_last()) {
            Some(phase) => if success_action(actions.last()) && phase == gate_phase(actions.last()) {
                Some(gate_next(actions.last()))
            } else {
                None
            },
            None => None,
        }
    }
}

/// The phase after the first `n` canonical success actions.
pub open spec fn canonical_phase(n: int) -> VerificationPhase {
    if n <= 0 {
        VerificationPhase::EvidenceReceived
    } else {
        gate_next(canonical_action(n - 1))
    }
}

/// In every phase a flow holds its request exactly while it is active, an
/// accepted profile exactly from evidence appraisal until policy
/// satisfaction, a session key exactly from session binding on, an allowed
/// class exactly in policy satisfaction, and a report exactly once ended.
pub proof fn lemma_retention_by_phase(flow: VerifierFlow)
    ensures
        flow.retained() is Some <==> active(flow.spec_phase()),
        flow.report() is Some <==> !active(flow.spec_phase()),
        flow.claimed_profile() is Some <==> (flow.spec_phase() == VerificationPhase::EvidenceAppraised
            || flow.spec_phase() == VerificationPhase::SessionBound || flow.spec_phase()
            == VerificationPhase::RevocationChecked || flow.spec_phase()
            == VerificationPhase::PolicySatisfied),
        flow.claimed_key() is Some <==> (flow.spec_phase() == VerificationPhase::SessionBound
            || flow.spec_phase() == VerificationPhase::RevocationChecked || flow.spec_phase()
            == VerificationPhase::PolicySatisfied),
        flow.selected() is Some <==> flow.spec_phase() == VerificationPhase::PolicySatisfied,
{
}

/// A failure is eligible only in an active phase, and every failure is
/// eligible in some phase.
pub proof fn lemma_failure_needs_active_phase(phase: VerificationPhase, failure: FailureKind)
    ensures
        eligible(phase, failure) ==> active(phase),
        exists|p: VerificationPhase| eligible(p, failure),
{
    match failure {
        FailureKind::Malformed => assert(eligible(VerificationPhase::EvidenceReceived, failure)),
        FailureKind::Unsupported(UnsupportedRequirement::VersionOrProfile) => assert(eligible(
            VerificationPhase::ChallengeAuthenticated,
            failure,
        )),
        FailureKind::Unsupported(UnsupportedRequirement::Platform) => assert(eligible(
            VerificationPhase::IdentityChecked,
            failure,
        )),
        FailureKind::Unsupported(_) => assert(eligible(VerificationPhase::EvidenceReceived, failure)),
        FailureKind::Retry(_) => assert(eligible(VerificationPhase::EvidenceReceived, failure)),
        FailureKind::Deny(DenialReason::ChallengeAuthenticationFailed) => assert(eligible(
            VerificationPhase::EvidenceReceived,
            failure,
        )),
        FailureKind::Deny(DenialReason::EvidenceInvalid) => assert(eligible(
            VerificationPhase::IdentityChecked,
            failure,
        )),
        FailureKind::Deny(DenialReason::PolicyDenied) => assert(eligible(
            VerificationPhase::RevocationChecked,
            failure,
        )),
        FailureKind::Deny(DenialReason::ProtectedSessionLost) => assert(eligible(
            VerificationPhase::SessionBound,
            failure,
        )),
        FailureKind::Deny(_) => assert(eligible(VerificationPhase::ChallengeAuthenticated, failure)),
        FailureKind::Revoked => assert(eligible(VerificationPhase::SessionBound, failure)),
    }
}

/// A terminal flow refuses every action: no gate or completion is accepted
/// in it and no failure is eligible in it, so each is answered with an
/// invalid transition and leaves the flow as it was.
pub proof fn lemma_terminal_refuses_everything(
    phase: VerificationPhase,
    action: VerificationAction,
    failure: FailureKind,
)
    requires
        !active(phase),
    ensures
        phase != gate_phase(action),
        !eligible(phase, failure),
{
    lemma_failure_needs_active_phase(phase, failure);
}

/// The gates admit one order only: a run of success actions from a fresh
/// flow in which each is accepted is a prefix of the canonical path, and it
/// stands in the phase that prefix reaches; `Verified` is reached only by
/// the whole path.
pub proof fn lemma_one_canonical_order(actions: Seq<VerificationAction>)
    requires
        run_phase(VerificationPhase::EvidenceReceived, actions) is Some,
    ensures
        actions.len() <= 8,
        forall|i: int| 0 <= i < actions.len() ==> actions[i] == canonical_action(i),
        run_phase(VerificationPhase::EvidenceReceived, actions) == Some(
            canonical_phase(actions.len() as int),
        ),
        run_phase(VerificationPhase::EvidenceReceived, actions) == Some(VerificationPhase::Verified)
            <==> actions.len() == 8,
    decreases actions.len(),
{
    if actions.len() > 0 {
        let prefix = actions.drop_last();
        lemma_one_canonical_order(prefix);
        let n = prefix.len() as int;
        let last = actions.last();
        assert(canonical_phase(n) == gate_phase(last));
        assert(last == canonical_action(n)) by {
            assert(success_action(last));
        }
        assert forall|i: int| 0 <= i < actions.len() implies actions[i] == canonical_action(i) by {
            if i < n {
                assert(actions[i] == prefix[i]);
            }
        }
    }
}

/// The relying-party context binds every one of its seven fields: the
/// research check reports `ContextBindingMismatch` once the challenge window
/// has passed whenever the expected publisher, game, build, account, match,
/// policy or policy version differs from the challenge's, whatever the claim
/// would have answered; when all seven agree the context is accepted.
pub proof fn lemma_context_binds_every_field(
    expected: ExpectedContext,
    challenge: PublisherChallenge,
    claim: Result<(), FreshnessError>,
)
    ensures
        (expected.publisher_id@ != challenge.publisher_id@ || expected.game_id@
            != challenge.game_id@ || expected.build_id@ != challenge.build_id@
            || expected.account_scope@ != challenge.account_scope@ || expected.match_id@
            != challenge.match_id@ || expected.policy_id@ != challenge.policy_id@
            || expected.policy_version.value != challenge.policy_version.value) ==> structure_report(
            Ok(()),
            context_matches(expected, challenge),
            claim,
        ) == failure_report(FailureKind::Deny(DenialReason::ContextBindingMismatch)),
        (expected.publisher_id@ == challenge.publisher_id@ && expected.game_id@
            == challenge.game_id@ && expected.build_id@ == challenge.build_id@
            && expected.account_scope@ == challenge.account_scope@ && expected.match_id@
            == challenge.match_id@ && expected.policy_id@ == challenge.policy_id@
            && expected.policy_version.value == challenge.policy_version.value)
            ==> context_matches(expected, challenge),
{
}

} // verus!
