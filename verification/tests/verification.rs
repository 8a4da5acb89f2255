use lib::freshness::FreshnessChecked;
use lib::model::{
    ChallengeLifetime, ChallengeWindow, Decision, EvidenceBundle, EvidenceProfile, Identifier,
    Nonce, PolicyVersion, ProtocolVersion, PublisherChallenge, ReasonCode, SessionPublicKeyId,
    UnixTime,
};
use lib::verification::{
    AllowedClass, AppraisalResult, AppraisalResultView, ChallengeAuthenticated, DenialReason,
    EvidenceAppraised, ExpectedContext, IdentityChecked, PolicySatisfied, RetryReason,
    RevocationChecked, SessionBound, TransitionError, UnsupportedRequirement, VerificationAction,
    VerificationBinding, VerificationPhase, VerificationRequest, VerifierFlow,
};

fn identifier(value: &str) -> Identifier {
    Identifier::new(value)
}

fn expect_equal<T: PartialEq>(actual: T, expected: T) {
    assert!(actual == expected, "values differ");
}

fn request_fixture(seed: u8) -> VerificationRequest {
    let maximum = ChallengeLifetime::new(100);
    let window = match ChallengeWindow::new(UnixTime::new(100), UnixTime::new(200), maximum) {
        Ok(value) => value,
        Err(error) => panic!("valid window rejected: {error:?}"),
    };
    VerificationRequest {
        challenge: PublisherChallenge {
            version: ProtocolVersion { major: 0, minor: 1 },
            publisher_id: identifier("example.publisher"),
            game_id: identifier("example.game"),
            build_id: identifier("build-1"),
            account_scope: identifier("account-1"),
            match_id: identifier("match-1"),
            policy_id: identifier("research-v0"),
            policy_version: PolicyVersion::new(3_141_592_653),
            nonce: Nonce::from_bytes([seed; 32]),
            window,
        },
        evidence: EvidenceBundle {
            profile_id: identifier("mock-v0"),
            payload: vec![seed; 8],
        },
        expected: ExpectedContext {
            publisher_id: identifier("example.publisher"),
            game_id: identifier("example.game"),
            build_id: identifier("build-1"),
            account_scope: identifier("account-1"),
            match_id: identifier("match-1"),
            policy_id: identifier("research-v0"),
            policy_version: PolicyVersion::new(1),
        },
        now: UnixTime::new(100),
    }
}

fn flow_fixture(seed: u8) -> VerifierFlow {
    VerifierFlow::begin(request_fixture(seed))
}

fn accepted_profile() -> EvidenceProfile {
    identifier("accepted-profile-v1")
}

fn session_key_id(seed: u8) -> SessionPublicKeyId {
    SessionPublicKeyId::from_bytes(std::array::from_fn(|index| seed ^ index as u8))
}


#[derive(Clone, PartialEq)]
enum ActionResult {
    NoResult,
    Allow {
        context: ExpectedContext,
        decision: Decision,
        reason: Option<ReasonCode>,
        allowed: AllowedClass,
        accepted_profile: EvidenceProfile,
        session_public_key_id: SessionPublicKeyId,
    },
    Failure {
        context: ExpectedContext,
        decision: Decision,
        reason: Option<ReasonCode>,
        view_decision: Decision,
        view_reason: ReasonCode,
    },
}

#[derive(Debug, Clone, Copy, PartialEq, Eq)]
enum BindingMode {
    Matching,
    OtherFlow,
}

#[derive(Debug, Clone, Copy, PartialEq, Eq)]
enum TestAction {
    Challenge(BindingMode),
    Freshness(BindingMode),
    Identity(BindingMode),
    Evidence(BindingMode),
    Session(BindingMode),
    Revocation(BindingMode),
    Policy(AllowedClass, BindingMode),
    Complete,
    MarkMalformed,
    MarkUnsupported(UnsupportedRequirement),
    MarkRetryable(RetryReason),
    Deny(DenialReason),
    MarkRevoked,
}

impl TestAction {
    fn public(self) -> VerificationAction {
        match self {
            Self::Challenge(_) => VerificationAction::RecordChallengeAuthenticated,
            Self::Freshness(_) => VerificationAction::RecordFreshnessChecked,
            Self::Identity(_) => VerificationAction::RecordIdentityChecked,
            Self::Evidence(_) => VerificationAction::RecordEvidenceAppraised,
            Self::Session(_) => VerificationAction::RecordSessionBound,
            Self::Revocation(_) => VerificationAction::RecordRevocationChecked,
            Self::Policy(_, _) => VerificationAction::RecordPolicySatisfied,
            Self::Complete => VerificationAction::Complete,
            Self::MarkMalformed => VerificationAction::MarkMalformed,
            Self::MarkUnsupported(_) => VerificationAction::MarkUnsupported,
            Self::MarkRetryable(_) => VerificationAction::MarkRetryable,
            Self::Deny(_) => VerificationAction::Deny,
            Self::MarkRevoked => VerificationAction::MarkRevoked,
        }
    }

    fn binding_mode(self) -> Option<BindingMode> {
        match self {
            Self::Challenge(mode)
            | Self::Freshness(mode)
            | Self::Identity(mode)
            | Self::Evidence(mode)
            | Self::Session(mode)
            | Self::Revocation(mode)
            | Self::Policy(_, mode) => Some(mode),
            Self::Complete
            | Self::MarkMalformed
            | Self::MarkUnsupported(_)
            | Self::MarkRetryable(_)
            | Self::Deny(_)
            | Self::MarkRevoked => None,
        }
    }

    fn required_phase(self) -> Option<VerificationPhase> {
        match self {
            Self::Challenge(_) => Some(VerificationPhase::EvidenceReceived),
            Self::Freshness(_) => Some(VerificationPhase::ChallengeAuthenticated),
            Self::Identity(_) => Some(VerificationPhase::FreshnessChecked),
            Self::Evidence(_) => Some(VerificationPhase::IdentityChecked),
            Self::Session(_) => Some(VerificationPhase::EvidenceAppraised),
            Self::Revocation(_) => Some(VerificationPhase::SessionBound),
            Self::Policy(_, _) => Some(VerificationPhase::RevocationChecked),
            Self::Complete => Some(VerificationPhase::PolicySatisfied),
            Self::MarkMalformed
            | Self::MarkUnsupported(_)
            | Self::MarkRetryable(_)
            | Self::Deny(_)
            | Self::MarkRevoked => None,
        }
    }
}

#[derive(Clone, PartialEq)]
struct FlowSnapshot {
    phase: VerificationPhase,
    outcome: Option<(Decision, Option<ReasonCode>)>,
    request: Option<VerificationRequest>,
    context: Option<ExpectedContext>,
    accepted_profile: Option<EvidenceProfile>,
    session_public_key_id: Option<SessionPublicKeyId>,
    allowed: Option<AllowedClass>,
    has_request: bool,
    has_profile: bool,
    has_session_key: bool,
    has_allowed_class: bool,
}

fn flow_snapshot(flow: &VerifierFlow) -> FlowSnapshot {
    let request = flow.retained_request().cloned();
    let context = request.as_ref().map(|request| request.expected.clone());
    let accepted_profile = flow.retained_profile().cloned();
    let session_public_key_id = flow.retained_session_key();
    let allowed = flow.retained_allowed();
    FlowSnapshot {
        phase: flow.phase(),
        outcome: flow.outcome().map(|outcome| (outcome.decision(), outcome.reason())),
        has_request: request.is_some(),
        has_profile: accepted_profile.is_some(),
        has_session_key: session_public_key_id.is_some(),
        has_allowed_class: allowed.is_some(),
        request,
        context,
        accepted_profile,
        session_public_key_id,
        allowed,
    }
}

const ALL_24_MATRIX_ACTIONS: [TestAction; 24] = [
    TestAction::Challenge(BindingMode::Matching),
    TestAction::Freshness(BindingMode::Matching),
    TestAction::Identity(BindingMode::Matching),
    TestAction::Evidence(BindingMode::Matching),
    TestAction::Session(BindingMode::Matching),
    TestAction::Revocation(BindingMode::Matching),
    TestAction::Policy(AllowedClass::Full, BindingMode::Matching),
    TestAction::Policy(AllowedClass::Restricted, BindingMode::Matching),
    TestAction::Complete,
    TestAction::MarkMalformed,
    TestAction::MarkUnsupported(UnsupportedRequirement::VersionOrProfile),
    TestAction::MarkUnsupported(UnsupportedRequirement::Platform),
    TestAction::MarkUnsupported(UnsupportedRequirement::UnknownCriticalRequirement),
    TestAction::MarkRetryable(RetryReason::AttestationUnavailable),
    TestAction::MarkRetryable(RetryReason::TransientFailure),
    TestAction::Deny(DenialReason::ChallengeAuthenticationFailed),
    TestAction::Deny(DenialReason::NotYetValid),
    TestAction::Deny(DenialReason::Expired),
    TestAction::Deny(DenialReason::ReplayDetected),
    TestAction::Deny(DenialReason::ContextBindingMismatch),
    TestAction::Deny(DenialReason::EvidenceInvalid),
    TestAction::Deny(DenialReason::PolicyDenied),
    TestAction::Deny(DenialReason::ProtectedSessionLost),
    TestAction::MarkRevoked,
];

#[derive(Debug, Clone, Copy, PartialEq, Eq)]
enum GateKind {
    Challenge,
    Freshness,
    Identity,
    Evidence,
    Session,
    Revocation,
    Policy,
}

const ALL_7_GATE_KINDS: [GateKind; 7] = [
    GateKind::Challenge,
    GateKind::Freshness,
    GateKind::Identity,
    GateKind::Evidence,
    GateKind::Session,
    GateKind::Revocation,
    GateKind::Policy,
];

impl GateKind {
    fn action(self) -> VerificationAction {
        match self {
            Self::Challenge => VerificationAction::RecordChallengeAuthenticated,
            Self::Freshness => VerificationAction::RecordFreshnessChecked,
            Self::Identity => VerificationAction::RecordIdentityChecked,
            Self::Evidence => VerificationAction::RecordEvidenceAppraised,
            Self::Session => VerificationAction::RecordSessionBound,
            Self::Revocation => VerificationAction::RecordRevocationChecked,
            Self::Policy => VerificationAction::RecordPolicySatisfied,
        }
    }

    fn matching_action(self, allowed: AllowedClass) -> TestAction {
        match self {
            Self::Challenge => TestAction::Challenge(BindingMode::Matching),
            Self::Freshness => TestAction::Freshness(BindingMode::Matching),
            Self::Identity => TestAction::Identity(BindingMode::Matching),
            Self::Evidence => TestAction::Evidence(BindingMode::Matching),
            Self::Session => TestAction::Session(BindingMode::Matching),
            Self::Revocation => TestAction::Revocation(BindingMode::Matching),
            Self::Policy => TestAction::Policy(allowed, BindingMode::Matching),
        }
    }

    fn required_phase(self) -> VerificationPhase {
        match self {
            Self::Challenge => VerificationPhase::EvidenceReceived,
            Self::Freshness => VerificationPhase::ChallengeAuthenticated,
            Self::Identity => VerificationPhase::FreshnessChecked,
            Self::Evidence => VerificationPhase::IdentityChecked,
            Self::Session => VerificationPhase::EvidenceAppraised,
            Self::Revocation => VerificationPhase::SessionBound,
            Self::Policy => VerificationPhase::RevocationChecked,
        }
    }
}

#[derive(Debug, Clone, Copy, PartialEq, Eq)]
enum ModelState {
    EvidenceReceived,
    ChallengeAuthenticated,
    FreshnessChecked,
    IdentityChecked,
    EvidenceAppraised,
    SessionBound,
    RevocationChecked,
    PolicySatisfied(AllowedClass),
    Verified(AllowedClass),
    Malformed,
    Unsupported(UnsupportedRequirement),
    Retryable(RetryReason),
    Denied(DenialReason),
    Revoked,
}

const ALL_14_MODEL_STATES: [ModelState; 14] = [
    ModelState::EvidenceReceived,
    ModelState::ChallengeAuthenticated,
    ModelState::FreshnessChecked,
    ModelState::IdentityChecked,
    ModelState::EvidenceAppraised,
    ModelState::SessionBound,
    ModelState::RevocationChecked,
    ModelState::PolicySatisfied(AllowedClass::Full),
    ModelState::Verified(AllowedClass::Full),
    ModelState::Malformed,
    ModelState::Unsupported(UnsupportedRequirement::VersionOrProfile),
    ModelState::Retryable(RetryReason::AttestationUnavailable),
    ModelState::Denied(DenialReason::PolicyDenied),
    ModelState::Revoked,
];

fn model_transition(state: ModelState, action: TestAction) -> Option<ModelState> {
    match (state, action) {
        (ModelState::EvidenceReceived, TestAction::Challenge(BindingMode::Matching)) => {
            Some(ModelState::ChallengeAuthenticated)
        }
        (ModelState::ChallengeAuthenticated, TestAction::Freshness(BindingMode::Matching)) => {
            Some(ModelState::FreshnessChecked)
        }
        (ModelState::FreshnessChecked, TestAction::Identity(BindingMode::Matching)) => {
            Some(ModelState::IdentityChecked)
        }
        (ModelState::IdentityChecked, TestAction::Evidence(BindingMode::Matching)) => {
            Some(ModelState::EvidenceAppraised)
        }
        (ModelState::EvidenceAppraised, TestAction::Session(BindingMode::Matching)) => {
            Some(ModelState::SessionBound)
        }
        (ModelState::SessionBound, TestAction::Revocation(BindingMode::Matching)) => {
            Some(ModelState::RevocationChecked)
        }
        (
            ModelState::RevocationChecked,
            TestAction::Policy(AllowedClass::Full, BindingMode::Matching),
        ) => Some(ModelState::PolicySatisfied(AllowedClass::Full)),
        (
            ModelState::RevocationChecked,
            TestAction::Policy(AllowedClass::Restricted, BindingMode::Matching),
        ) => Some(ModelState::PolicySatisfied(AllowedClass::Restricted)),
        (ModelState::PolicySatisfied(class), TestAction::Complete) => {
            Some(ModelState::Verified(class))
        }
        (
            ModelState::EvidenceReceived,
            action @ (TestAction::MarkMalformed
            | TestAction::Deny(DenialReason::ChallengeAuthenticationFailed)
            | TestAction::MarkRetryable(
                RetryReason::AttestationUnavailable | RetryReason::TransientFailure,
            )
            | TestAction::MarkUnsupported(
                UnsupportedRequirement::UnknownCriticalRequirement,
            )),
        ) => Some(model_failure_terminal(action)),
        (
            ModelState::ChallengeAuthenticated,
            action @ (TestAction::MarkUnsupported(
                UnsupportedRequirement::VersionOrProfile
                | UnsupportedRequirement::UnknownCriticalRequirement,
            )
            | TestAction::Deny(
                DenialReason::NotYetValid
                | DenialReason::Expired
                | DenialReason::ReplayDetected
                | DenialReason::ContextBindingMismatch,
            )
            | TestAction::MarkRetryable(
                RetryReason::AttestationUnavailable | RetryReason::TransientFailure,
            )),
        ) => Some(model_failure_terminal(action)),
        (
            ModelState::FreshnessChecked,
            action @ (TestAction::Deny(DenialReason::ContextBindingMismatch)
            | TestAction::MarkRetryable(
                RetryReason::AttestationUnavailable | RetryReason::TransientFailure,
            )
            | TestAction::MarkUnsupported(
                UnsupportedRequirement::UnknownCriticalRequirement,
            )),
        ) => Some(model_failure_terminal(action)),
        (
            ModelState::IdentityChecked,
            action @ (TestAction::MarkUnsupported(
                UnsupportedRequirement::Platform
                | UnsupportedRequirement::UnknownCriticalRequirement,
            )
            | TestAction::Deny(DenialReason::EvidenceInvalid)
            | TestAction::MarkRetryable(
                RetryReason::AttestationUnavailable | RetryReason::TransientFailure,
            )),
        ) => Some(model_failure_terminal(action)),
        (
            ModelState::EvidenceAppraised,
            action @ (TestAction::Deny(
                DenialReason::ContextBindingMismatch | DenialReason::ProtectedSessionLost,
            )
            | TestAction::MarkRetryable(
                RetryReason::AttestationUnavailable | RetryReason::TransientFailure,
            )
            | TestAction::MarkUnsupported(
                UnsupportedRequirement::UnknownCriticalRequirement,
            )),
        ) => Some(model_failure_terminal(action)),
        (
            ModelState::SessionBound,
            action @ (TestAction::MarkRevoked
            | TestAction::Deny(DenialReason::ProtectedSessionLost)
            | TestAction::MarkRetryable(
                RetryReason::AttestationUnavailable | RetryReason::TransientFailure,
            )
            | TestAction::MarkUnsupported(
                UnsupportedRequirement::UnknownCriticalRequirement,
            )),
        ) => Some(model_failure_terminal(action)),
        (
            ModelState::RevocationChecked,
            action @ (TestAction::Deny(
                DenialReason::PolicyDenied | DenialReason::ProtectedSessionLost,
            )
            | TestAction::MarkRetryable(
                RetryReason::AttestationUnavailable | RetryReason::TransientFailure,
            )
            | TestAction::MarkUnsupported(
                UnsupportedRequirement::UnknownCriticalRequirement,
            )),
        ) => Some(model_failure_terminal(action)),
        (
            ModelState::PolicySatisfied(_),
            action @ (TestAction::Deny(DenialReason::ProtectedSessionLost)
            | TestAction::MarkRetryable(
                RetryReason::AttestationUnavailable | RetryReason::TransientFailure,
            )
            | TestAction::MarkUnsupported(
                UnsupportedRequirement::UnknownCriticalRequirement,
            )),
        ) => Some(model_failure_terminal(action)),
        _ => None,
    }
}

fn model_failure_terminal(action: TestAction) -> ModelState {
    match action {
        TestAction::MarkMalformed => ModelState::Malformed,
        TestAction::MarkUnsupported(requirement) => ModelState::Unsupported(requirement),
        TestAction::MarkRetryable(reason) => ModelState::Retryable(reason),
        TestAction::Deny(reason) => ModelState::Denied(reason),
        TestAction::MarkRevoked => ModelState::Revoked,
        TestAction::Challenge(_)
        | TestAction::Freshness(_)
        | TestAction::Identity(_)
        | TestAction::Evidence(_)
        | TestAction::Session(_)
        | TestAction::Revocation(_)
        | TestAction::Policy(_, _)
        | TestAction::Complete => panic!("non-failure action in model failure mapping: {action:?}"),
    }
}

fn model_is_nonterminal(state: ModelState) -> bool {
    match state {
        ModelState::EvidenceReceived
        | ModelState::ChallengeAuthenticated
        | ModelState::FreshnessChecked
        | ModelState::IdentityChecked
        | ModelState::EvidenceAppraised
        | ModelState::SessionBound
        | ModelState::RevocationChecked
        | ModelState::PolicySatisfied(_) => true,
        ModelState::Verified(_)
        | ModelState::Malformed
        | ModelState::Unsupported(_)
        | ModelState::Retryable(_)
        | ModelState::Denied(_)
        | ModelState::Revoked => false,
    }
}

fn model_has_profile(state: ModelState) -> bool {
    match state {
        ModelState::EvidenceAppraised
        | ModelState::SessionBound
        | ModelState::RevocationChecked
        | ModelState::PolicySatisfied(_) => true,
        ModelState::EvidenceReceived
        | ModelState::ChallengeAuthenticated
        | ModelState::FreshnessChecked
        | ModelState::IdentityChecked
        | ModelState::Verified(_)
        | ModelState::Malformed
        | ModelState::Unsupported(_)
        | ModelState::Retryable(_)
        | ModelState::Denied(_)
        | ModelState::Revoked => false,
    }
}

fn model_has_session_key(state: ModelState) -> bool {
    match state {
        ModelState::SessionBound
        | ModelState::RevocationChecked
        | ModelState::PolicySatisfied(_) => true,
        ModelState::EvidenceReceived
        | ModelState::ChallengeAuthenticated
        | ModelState::FreshnessChecked
        | ModelState::IdentityChecked
        | ModelState::EvidenceAppraised
        | ModelState::Verified(_)
        | ModelState::Malformed
        | ModelState::Unsupported(_)
        | ModelState::Retryable(_)
        | ModelState::Denied(_)
        | ModelState::Revoked => false,
    }
}

fn model_has_allowed_class(state: ModelState) -> bool {
    match state {
        ModelState::PolicySatisfied(_) => true,
        ModelState::EvidenceReceived
        | ModelState::ChallengeAuthenticated
        | ModelState::FreshnessChecked
        | ModelState::IdentityChecked
        | ModelState::EvidenceAppraised
        | ModelState::SessionBound
        | ModelState::RevocationChecked
        | ModelState::Verified(_)
        | ModelState::Malformed
        | ModelState::Unsupported(_)
        | ModelState::Retryable(_)
        | ModelState::Denied(_)
        | ModelState::Revoked => false,
    }
}

fn model_phase(state: ModelState) -> VerificationPhase {
    match state {
        ModelState::EvidenceReceived => VerificationPhase::EvidenceReceived,
        ModelState::ChallengeAuthenticated => VerificationPhase::ChallengeAuthenticated,
        ModelState::FreshnessChecked => VerificationPhase::FreshnessChecked,
        ModelState::IdentityChecked => VerificationPhase::IdentityChecked,
        ModelState::EvidenceAppraised => VerificationPhase::EvidenceAppraised,
        ModelState::SessionBound => VerificationPhase::SessionBound,
        ModelState::RevocationChecked => VerificationPhase::RevocationChecked,
        ModelState::PolicySatisfied(_) => VerificationPhase::PolicySatisfied,
        ModelState::Verified(_) => VerificationPhase::Verified,
        ModelState::Malformed => VerificationPhase::Malformed,
        ModelState::Unsupported(_) => VerificationPhase::Unsupported,
        ModelState::Retryable(_) => VerificationPhase::Retryable,
        ModelState::Denied(_) => VerificationPhase::Denied,
        ModelState::Revoked => VerificationPhase::Revoked,
    }
}


fn model_denial_reason(reason: DenialReason) -> ReasonCode {
    match reason {
        DenialReason::ChallengeAuthenticationFailed => ReasonCode::ChallengeAuthenticationFailed,
        DenialReason::NotYetValid => ReasonCode::NotYetValid,
        DenialReason::Expired => ReasonCode::Expired,
        DenialReason::ReplayDetected => ReasonCode::ReplayDetected,
        DenialReason::ContextBindingMismatch => ReasonCode::ContextBindingMismatch,
        DenialReason::EvidenceInvalid => ReasonCode::EvidenceInvalid,
        DenialReason::PolicyDenied => ReasonCode::PolicyDenied,
        DenialReason::ProtectedSessionLost => ReasonCode::ProtectedSessionLost,
    }
}

fn model_unsupported_reason(requirement: UnsupportedRequirement) -> ReasonCode {
    match requirement {
        UnsupportedRequirement::VersionOrProfile => ReasonCode::UnsupportedVersionOrProfile,
        UnsupportedRequirement::Platform => ReasonCode::UnsupportedPlatform,
        UnsupportedRequirement::UnknownCriticalRequirement => {
            ReasonCode::UnsupportedCriticalRequirement
        }
    }
}

fn model_retry_reason(reason: RetryReason) -> ReasonCode {
    match reason {
        RetryReason::AttestationUnavailable => ReasonCode::AttestationUnavailable,
        RetryReason::TransientFailure => ReasonCode::TransientFailure,
    }
}

fn model_report(state: ModelState) -> Option<(Decision, Option<ReasonCode>)> {
    match state {
        ModelState::Verified(AllowedClass::Full) => Some((Decision::Allow, None)),
        ModelState::Verified(AllowedClass::Restricted) => Some((Decision::AllowRestricted, None)),
        ModelState::Malformed => Some((Decision::Deny, Some(ReasonCode::Malformed))),
        ModelState::Unsupported(requirement) => Some((
            Decision::Unsupported,
            Some(model_unsupported_reason(requirement)),
        )),
        ModelState::Retryable(reason) => Some((Decision::Retry, Some(model_retry_reason(reason)))),
        ModelState::Denied(reason) => Some((Decision::Deny, Some(model_denial_reason(reason)))),
        ModelState::Revoked => Some((Decision::Deny, Some(ReasonCode::Revoked))),
        ModelState::EvidenceReceived
        | ModelState::ChallengeAuthenticated
        | ModelState::FreshnessChecked
        | ModelState::IdentityChecked
        | ModelState::EvidenceAppraised
        | ModelState::SessionBound
        | ModelState::RevocationChecked
        | ModelState::PolicySatisfied(_) => None,
    }
}

fn expected_action_result(
    before: &FlowSnapshot,
    next: ModelState,
    action: TestAction,
) -> ActionResult {
    match next {
        ModelState::EvidenceReceived
        | ModelState::ChallengeAuthenticated
        | ModelState::FreshnessChecked
        | ModelState::IdentityChecked
        | ModelState::EvidenceAppraised
        | ModelState::SessionBound
        | ModelState::RevocationChecked
        | ModelState::PolicySatisfied(_) => ActionResult::NoResult,
        ModelState::Verified(allowed) => {
            assert_eq!(action, TestAction::Complete);
            ActionResult::Allow {
                context: before
                    .context
                    .clone()
                    .unwrap_or_else(|| panic!("completion lacked pre-action context")),
                decision: match allowed {
                    AllowedClass::Full => Decision::Allow,
                    AllowedClass::Restricted => Decision::AllowRestricted,
                },
                reason: None,
                allowed,
                accepted_profile: before
                    .accepted_profile
                    .clone()
                    .unwrap_or_else(|| panic!("completion lacked pre-action profile")),
                session_public_key_id: before
                    .session_public_key_id
                    .unwrap_or_else(|| panic!("completion lacked pre-action session key")),
            }
        }
        ModelState::Malformed
        | ModelState::Unsupported(_)
        | ModelState::Retryable(_)
        | ModelState::Denied(_)
        | ModelState::Revoked => {
            let (terminal, decision, reason) = failure_mapping(action);
            assert_eq!(terminal, model_phase(next));
            ActionResult::Failure {
                context: before
                    .context
                    .clone()
                    .unwrap_or_else(|| panic!("failure lacked pre-action context")),
                decision,
                reason: Some(reason),
                view_decision: decision,
                view_reason: reason,
            }
        }
    }
}

fn expected_outcome_diagnostic(state: ModelState) -> Option<String> {
    model_report(state).map(|(decision, reason)| {
        format!("VerificationOutcome {{ decision: {decision:?}, reason: {reason:?} }}")
    })
}

fn expected_flow_diagnostic(state: ModelState) -> String {
    let outcome = match expected_outcome_diagnostic(state) {
        Some(value) => format!("Some({value})"),
        None => String::from("None"),
    };
    format!(
        "VerifierFlow {{ phase: {:?}, outcome: {outcome} }}",
        model_phase(state)
    )
}

fn selected_binding(
    flow: &VerifierFlow,
    other_binding: &VerificationBinding,
    mode: BindingMode,
) -> VerificationBinding {
    match mode {
        BindingMode::Matching => flow.attempt_binding(),
        BindingMode::OtherFlow => other_binding.clone(),
    }
}

fn appraisal_action_result(result: AppraisalResult) -> ActionResult {
    let context = result.context().clone();
    let decision = result.decision();
    let reason = result.reason();
    match result.view() {
        AppraisalResultView::Allow(claims) => ActionResult::Allow {
            context,
            decision,
            reason,
            allowed: AllowedClass::Full,
            accepted_profile: claims.accepted_profile().clone(),
            session_public_key_id: *claims.session_public_key_id(),
        },
        AppraisalResultView::AllowRestricted(claims) => ActionResult::Allow {
            context,
            decision,
            reason,
            allowed: AllowedClass::Restricted,
            accepted_profile: claims.accepted_profile().clone(),
            session_public_key_id: *claims.session_public_key_id(),
        },
        AppraisalResultView::Failure {
            decision: view_decision,
            reason: view_reason,
        } => ActionResult::Failure {
            context,
            decision,
            reason,
            view_decision,
            view_reason,
        },
    }
}

fn apply_action(
    flow: &mut VerifierFlow,
    other_binding: &VerificationBinding,
    action: TestAction,
) -> Result<ActionResult, TransitionError> {
    match action {
        TestAction::Challenge(mode) => {
            let binding = selected_binding(flow, other_binding, mode);
            flow.record_challenge_authenticated(ChallengeAuthenticated::for_attempt(binding))?;
            Ok(ActionResult::NoResult)
        }
        TestAction::Freshness(mode) => {
            let binding = selected_binding(flow, other_binding, mode);
            flow.record_freshness_checked(FreshnessChecked::for_attempt(binding))?;
            Ok(ActionResult::NoResult)
        }
        TestAction::Identity(mode) => {
            let binding = selected_binding(flow, other_binding, mode);
            flow.record_identity_checked(IdentityChecked::for_attempt(binding))?;
            Ok(ActionResult::NoResult)
        }
        TestAction::Evidence(mode) => {
            let binding = selected_binding(flow, other_binding, mode);
            let accepted_profile = match mode {
                BindingMode::Matching => accepted_profile(),
                BindingMode::OtherFlow => identifier("other-flow-profile"),
            };
            flow.record_evidence_appraised(EvidenceAppraised::for_attempt(binding, accepted_profile))?;
            Ok(ActionResult::NoResult)
        }
        TestAction::Session(mode) => {
            let binding = selected_binding(flow, other_binding, mode);
            let session_public_key_id = match mode {
                BindingMode::Matching => session_key_id(7),
                BindingMode::OtherFlow => session_key_id(251),
            };
            flow.record_session_bound(SessionBound::for_attempt(binding, session_public_key_id))?;
            Ok(ActionResult::NoResult)
        }
        TestAction::Revocation(mode) => {
            let binding = selected_binding(flow, other_binding, mode);
            flow.record_revocation_checked(RevocationChecked::for_attempt(binding))?;
            Ok(ActionResult::NoResult)
        }
        TestAction::Policy(allowed, mode) => {
            let binding = selected_binding(flow, other_binding, mode);
            flow.record_policy_satisfied(PolicySatisfied::for_attempt(binding, allowed))?;
            Ok(ActionResult::NoResult)
        }
        TestAction::Complete => {
            let verified = flow.complete()?;
            Ok(appraisal_action_result(verified.into_appraisal_result()))
        }
        TestAction::MarkMalformed => {
            let result = flow.mark_malformed()?;
            Ok(appraisal_action_result(result))
        }
        TestAction::MarkUnsupported(requirement) => {
            let result = flow.mark_unsupported(requirement)?;
            Ok(appraisal_action_result(result))
        }
        TestAction::MarkRetryable(retry_reason) => {
            let result = flow.mark_retryable(retry_reason)?;
            Ok(appraisal_action_result(result))
        }
        TestAction::Deny(reason) => {
            let result = flow.deny(reason)?;
            Ok(appraisal_action_result(result))
        }
        TestAction::MarkRevoked => {
            let result = flow.mark_revoked()?;
            Ok(appraisal_action_result(result))
        }
    }
}

fn advance_flow_to_model_state(
    mut flow: VerifierFlow,
    state: ModelState,
    other_binding: &VerificationBinding,
) -> VerifierFlow {
    match state {
        ModelState::Malformed => {
            match flow.mark_malformed() {
                Ok(value) => drop(value),
                Err(error) => panic!("malformed fixture rejected: {}", error.diagnostic()),
            }
            return flow;
        }
        ModelState::Unsupported(requirement) => {
            let gate_count = match requirement {
                UnsupportedRequirement::VersionOrProfile => 1,
                UnsupportedRequirement::Platform => 3,
                UnsupportedRequirement::UnknownCriticalRequirement => 0,
            };
            for gate in ALL_7_GATE_KINDS.into_iter().take(gate_count) {
                expect_equal(
                    apply_action(
                        &mut flow,
                        other_binding,
                        gate.matching_action(AllowedClass::Full),
                    ),
                    Ok(ActionResult::NoResult)
                );
            }
            match flow.mark_unsupported(requirement) {
                Ok(value) => drop(value),
                Err(error) => panic!("unsupported fixture rejected: {}", error.diagnostic()),
            }
            return flow;
        }
        ModelState::Retryable(reason) => {
            match flow.mark_retryable(reason) {
                Ok(value) => drop(value),
                Err(error) => panic!("retryable fixture rejected: {}", error.diagnostic()),
            }
            return flow;
        }
        ModelState::Denied(reason) => {
            let gate_count = match reason {
                DenialReason::ChallengeAuthenticationFailed => 0,
                DenialReason::NotYetValid
                | DenialReason::Expired
                | DenialReason::ReplayDetected
                | DenialReason::ContextBindingMismatch => 1,
                DenialReason::EvidenceInvalid => 3,
                DenialReason::PolicyDenied => 6,
                DenialReason::ProtectedSessionLost => 4,
            };
            for gate in ALL_7_GATE_KINDS.into_iter().take(gate_count) {
                expect_equal(
                    apply_action(
                        &mut flow,
                        other_binding,
                        gate.matching_action(AllowedClass::Full),
                    ),
                    Ok(ActionResult::NoResult)
                );
            }
            match flow.deny(reason) {
                Ok(value) => drop(value),
                Err(error) => panic!("denied fixture rejected: {}", error.diagnostic()),
            }
            return flow;
        }
        ModelState::Revoked => {
            for gate in ALL_7_GATE_KINDS.into_iter().take(5) {
                expect_equal(
                    apply_action(
                        &mut flow,
                        other_binding,
                        gate.matching_action(AllowedClass::Full),
                    ),
                    Ok(ActionResult::NoResult)
                );
            }
            match flow.mark_revoked() {
                Ok(value) => drop(value),
                Err(error) => panic!("revoked fixture rejected: {}", error.diagnostic()),
            }
            return flow;
        }
        ModelState::EvidenceReceived
        | ModelState::ChallengeAuthenticated
        | ModelState::FreshnessChecked
        | ModelState::IdentityChecked
        | ModelState::EvidenceAppraised
        | ModelState::SessionBound
        | ModelState::RevocationChecked
        | ModelState::PolicySatisfied(_)
        | ModelState::Verified(_) => {}
    }

    let (gate_count, allowed, should_complete) = match state {
        ModelState::EvidenceReceived => (0, AllowedClass::Full, false),
        ModelState::ChallengeAuthenticated => (1, AllowedClass::Full, false),
        ModelState::FreshnessChecked => (2, AllowedClass::Full, false),
        ModelState::IdentityChecked => (3, AllowedClass::Full, false),
        ModelState::EvidenceAppraised => (4, AllowedClass::Full, false),
        ModelState::SessionBound => (5, AllowedClass::Full, false),
        ModelState::RevocationChecked => (6, AllowedClass::Full, false),
        ModelState::PolicySatisfied(allowed) => (7, allowed, false),
        ModelState::Verified(allowed) => (7, allowed, true),
        ModelState::Malformed
        | ModelState::Unsupported(_)
        | ModelState::Retryable(_)
        | ModelState::Denied(_)
        | ModelState::Revoked => unreachable!("failure states returned above"),
    };
    for gate in ALL_7_GATE_KINDS.into_iter().take(gate_count) {
        let action = gate.matching_action(allowed);
        assert_eq!(action.public(), gate.action());
        expect_equal(
            apply_action(&mut flow, other_binding, action),
            Ok(ActionResult::NoResult)
        );
    }
    if should_complete {
        let before = flow_snapshot(&flow);
        expect_equal(
            apply_action(&mut flow, other_binding, TestAction::Complete),
            Ok(expected_action_result(
                &before,
                ModelState::Verified(allowed),
                TestAction::Complete,
            ))
        );
    }
    flow
}

fn flow_for_model_state(state: ModelState, seed: u8) -> VerifierFlow {
    let flow = flow_fixture(seed);
    let other_binding = flow_fixture(seed.wrapping_add(1)).attempt_binding();
    advance_flow_to_model_state(flow, state, &other_binding)
}

fn assert_flow_matches_model(flow: &VerifierFlow, state: ModelState) {
    assert_eq!(flow.phase(), model_phase(state));
    assert_eq!(
        flow.outcome()
            .map(|outcome| (outcome.decision(), outcome.reason())),
        model_report(state)
    );
    let snapshot = flow_snapshot(flow);
    assert_eq!(snapshot.has_request, model_is_nonterminal(state));
    assert_eq!(snapshot.has_profile, model_has_profile(state));
    assert_eq!(snapshot.has_session_key, model_has_session_key(state));
    assert_eq!(snapshot.has_allowed_class, model_has_allowed_class(state));
}

fn expected_success_snapshot(
    before: &FlowSnapshot,
    next: ModelState,
    action: TestAction,
) -> FlowSnapshot {
    let mut expected = before.clone();
    expected.phase = model_phase(next);
    expected.outcome =
        model_report(next);

    if model_is_terminal(next) {
        expected.request = None;
        expected.context = None;
        expected.accepted_profile = None;
        expected.session_public_key_id = None;
        expected.allowed = None;
    } else {
        match action {
            TestAction::Evidence(BindingMode::Matching) => {
                expected.accepted_profile = Some(accepted_profile());
            }
            TestAction::Session(BindingMode::Matching) => {
                expected.session_public_key_id = Some(session_key_id(7));
            }
            TestAction::Policy(allowed, BindingMode::Matching) => {
                expected.allowed = Some(allowed);
            }
            TestAction::Challenge(BindingMode::Matching)
            | TestAction::Freshness(BindingMode::Matching)
            | TestAction::Identity(BindingMode::Matching)
            | TestAction::Revocation(BindingMode::Matching) => {}
            TestAction::Challenge(BindingMode::OtherFlow)
            | TestAction::Freshness(BindingMode::OtherFlow)
            | TestAction::Identity(BindingMode::OtherFlow)
            | TestAction::Evidence(BindingMode::OtherFlow)
            | TestAction::Session(BindingMode::OtherFlow)
            | TestAction::Revocation(BindingMode::OtherFlow)
            | TestAction::Policy(_, BindingMode::OtherFlow)
            | TestAction::Complete
            | TestAction::MarkMalformed
            | TestAction::MarkUnsupported(_)
            | TestAction::MarkRetryable(_)
            | TestAction::Deny(_)
            | TestAction::MarkRevoked => {
                panic!("non-active-success action produced active state: {action:?} {next:?}")
            }
        }
    }

    expected.has_request = expected.request.is_some();
    expected.has_profile = expected.accepted_profile.is_some();
    expected.has_session_key = expected.session_public_key_id.is_some();
    expected.has_allowed_class = expected.allowed.is_some();
    expected
}

fn equal_flows_at_gate(gate: GateKind, seed: u8) -> (VerifierFlow, VerifierFlow) {
    let request = request_fixture(seed);
    let equal_request = request.clone();
    expect_equal(&request, &equal_request);
    let mut source = VerifierFlow::begin(request);
    let mut target = VerifierFlow::begin(equal_request);
    expect_equal(
        flow_snapshot(&source).request,
        flow_snapshot(&target).request
    );
    assert!(!source.attempt_binding().matches(&target.attempt_binding()));

    let prefix_length = match gate {
        GateKind::Challenge => 0,
        GateKind::Freshness => 1,
        GateKind::Identity => 2,
        GateKind::Evidence => 3,
        GateKind::Session => 4,
        GateKind::Revocation => 5,
        GateKind::Policy => 6,
    };
    for prefix_gate in ALL_7_GATE_KINDS.into_iter().take(prefix_length) {
        let action = prefix_gate.matching_action(AllowedClass::Full);
        expect_equal(
            apply_action(&mut source, &target.attempt_binding(), action),
            Ok(ActionResult::NoResult)
        );
        expect_equal(
            apply_action(&mut target, &source.attempt_binding(), action),
            Ok(ActionResult::NoResult)
        );
    }
    assert_eq!(source.phase(), gate.required_phase());
    assert_eq!(target.phase(), gate.required_phase());
    expect_equal(flow_snapshot(&source), flow_snapshot(&target));
    (source, target)
}

fn apply_capability_from_other_flow(
    gate: GateKind,
    source: &VerifierFlow,
    target: &mut VerifierFlow,
) -> Result<(), TransitionError> {
    let binding = source.attempt_binding();
    match gate {
        GateKind::Challenge => {
            target.record_challenge_authenticated(ChallengeAuthenticated::for_attempt(binding))
        }
        GateKind::Freshness => {
            target.record_freshness_checked(FreshnessChecked::for_attempt(binding))
        }
        GateKind::Identity => target.record_identity_checked(IdentityChecked::for_attempt(binding)),
        GateKind::Evidence => target.record_evidence_appraised(EvidenceAppraised::for_attempt(binding, accepted_profile())),
        GateKind::Session => target.record_session_bound(SessionBound::for_attempt(binding, session_key_id(7))),
        GateKind::Revocation => target.record_revocation_checked(RevocationChecked::for_attempt(binding)),
        GateKind::Policy => target.record_policy_satisfied(PolicySatisfied::for_attempt(binding, AllowedClass::Full)),
    }
}

fn flow_with_private_sentinels() -> VerifierFlow {
    let maximum = ChallengeLifetime::new(100);
    let window = match ChallengeWindow::new(UnixTime::new(4_242), UnixTime::new(4_342), maximum) {
        Ok(value) => value,
        Err(error) => panic!("valid private window rejected: {error:?}"),
    };
    VerifierFlow::begin(VerificationRequest {
        challenge: PublisherChallenge {
            version: ProtocolVersion { major: 0, minor: 1 },
            publisher_id: identifier("private.publisher"),
            game_id: identifier("private.game"),
            build_id: identifier("private-build"),
            account_scope: identifier("private-account"),
            match_id: identifier("private-match"),
            policy_id: identifier("private-policy"),
            policy_version: PolicyVersion::new(1),
            nonce: Nonce::from_bytes([0xA5; 32]),
            window,
        },
        evidence: EvidenceBundle {
            profile_id: identifier("private-profile"),
            payload: b"private-evidence-payload".to_vec(),
        },
        expected: ExpectedContext {
            publisher_id: identifier("private.publisher"),
            game_id: identifier("private.game"),
            build_id: identifier("private-build"),
            account_scope: identifier("private-account"),
            match_id: identifier("private-match"),
            policy_id: identifier("private-policy"),
            policy_version: PolicyVersion::new(3_141_592_653),
        },
        now: UnixTime::new(4_243),
    })
}

fn private_flow_for_model_state(state: ModelState) -> VerifierFlow {
    let flow = flow_with_private_sentinels();
    let other_binding = flow_fixture(86).attempt_binding();
    advance_flow_to_model_state(flow, state, &other_binding)
}

#[derive(Debug, Clone, Copy, PartialEq, Eq)]
enum ExpectedAction {
    Allowed(ModelState),
    InvalidTransition,
    CapabilityRejected,
}



fn push_result_diagnostics(result: &AppraisalResult, diagnostics: &mut Vec<String>) {
    let diagnostic = result.diagnostic().to_string();
    assert_eq!(diagnostic, "AppraisalResult([REDACTED])");
    diagnostics.push(diagnostic);

    let view = result.view();
    let diagnostic = view.diagnostic().to_string();
    assert_eq!(diagnostic, "AppraisalResultView([REDACTED])");
    diagnostics.push(diagnostic);

    if let AppraisalResultView::Allow(claims) | AppraisalResultView::AllowRestricted(claims) = view
    {
        let diagnostic = claims.diagnostic().to_string();
        assert_eq!(diagnostic, "AcceptedClaims([REDACTED])");
        diagnostics.push(diagnostic);
    }
}

fn sentinel_flow_at_policy(allowed: AllowedClass) -> VerifierFlow {
    let mut flow = flow_with_private_sentinels();
    let binding = flow.attempt_binding();
    assert!(flow.record_challenge_authenticated(ChallengeAuthenticated::for_attempt(binding.share())).is_ok());
    assert!(flow.record_freshness_checked(FreshnessChecked::for_attempt(binding.share())).is_ok());
    assert!(flow.record_identity_checked(IdentityChecked::for_attempt(binding.share())).is_ok());
    assert!(
        flow.record_evidence_appraised(EvidenceAppraised::for_attempt(
            binding.share(),
            identifier("private-accepted-profile"),
        ))
        .is_ok()
    );
    assert!(
        flow.record_session_bound(SessionBound::for_attempt(
            binding.share(),
            SessionPublicKeyId::from_bytes([0xD7; 32]),
        ))
        .is_ok()
    );
    assert!(flow.record_revocation_checked(RevocationChecked::for_attempt(binding.share())).is_ok());
    assert!(flow.record_policy_satisfied(PolicySatisfied::for_attempt(binding, allowed)).is_ok());
    flow
}

fn diagnostics_for_every_surface(flow: &mut VerifierFlow) -> Vec<String> {
    let mut diagnostics = Vec::new();
    let binding = flow.attempt_binding();

    let binding_diagnostic = binding.diagnostic().to_string();
    assert!(
        binding_diagnostic == "VerificationBinding([REDACTED])",
        "private diagnostic mismatch"
    );
    diagnostics.push(binding_diagnostic);

    let challenge = ChallengeAuthenticated::for_attempt(binding.share());
    let diagnostic = challenge.diagnostic().to_string();
    assert!(diagnostic == "ChallengeAuthenticated([REDACTED])", "private diagnostic mismatch");
    diagnostics.push(diagnostic);

    let freshness = FreshnessChecked::for_attempt(binding.share());
    let diagnostic = freshness.diagnostic().to_string();
    assert!(diagnostic == "FreshnessChecked([REDACTED])", "private diagnostic mismatch");
    diagnostics.push(diagnostic);

    let identity = IdentityChecked::for_attempt(binding.share());
    let diagnostic = identity.diagnostic().to_string();
    assert!(diagnostic == "IdentityChecked([REDACTED])", "private diagnostic mismatch");
    diagnostics.push(diagnostic);

    let evidence =
        EvidenceAppraised::for_attempt(binding.share(), identifier("private-accepted-profile"));
    let diagnostic = evidence.diagnostic().to_string();
    assert!(diagnostic == "EvidenceAppraised([REDACTED])", "private diagnostic mismatch");
    diagnostics.push(diagnostic);

    let session = SessionBound::for_attempt(binding.share(), session_key_id(0xA5));
    let diagnostic = session.diagnostic().to_string();
    assert!(diagnostic == "SessionBound([REDACTED])", "private diagnostic mismatch");
    diagnostics.push(diagnostic);

    let revocation = RevocationChecked::for_attempt(binding.share());
    let diagnostic = revocation.diagnostic().to_string();
    assert!(diagnostic == "RevocationChecked([REDACTED])", "private diagnostic mismatch");
    diagnostics.push(diagnostic);

    let policy = PolicySatisfied::for_attempt(binding.share(), AllowedClass::Full);
    let diagnostic = policy.diagnostic().to_string();
    assert!(diagnostic == "PolicySatisfied([REDACTED])", "private diagnostic mismatch");
    diagnostics.push(diagnostic);

    let mut full_flow = sentinel_flow_at_policy(AllowedClass::Full);
    let verified = match full_flow.complete() {
        Ok(value) => value,
        Err(error) => panic!("sentinel completion rejected: {}", error.diagnostic()),
    };
    let diagnostic = verified.diagnostic().to_string();
    assert!(diagnostic == "VerifiedAttestation([REDACTED])", "private diagnostic mismatch");
    diagnostics.push(diagnostic);

    let full = verified.into_appraisal_result();
    push_result_diagnostics(&full, &mut diagnostics);
    let mut restricted_flow = sentinel_flow_at_policy(AllowedClass::Restricted);
    let restricted = match restricted_flow.complete() {
        Ok(value) => value.into_appraisal_result(),
        Err(error) => panic!("sentinel completion rejected: {}", error.diagnostic()),
    };
    push_result_diagnostics(&restricted, &mut diagnostics);
    let mut failure_flow = private_flow_for_model_state(ModelState::IdentityChecked);
    let failure = match failure_flow.deny(DenialReason::EvidenceInvalid) {
        Ok(value) => value,
        Err(error) => panic!("sentinel denial rejected: {}", error.diagnostic()),
    };
    push_result_diagnostics(&failure, &mut diagnostics);

    let request = match flow.retained_request() {
        Some(request) if flow.phase() == VerificationPhase::EvidenceReceived => request,
        _ => panic!("sentinel flow unexpectedly left its initial active state"),
    };
    let diagnostic = request.diagnostic().to_string();
    assert!(diagnostic == "VerificationRequest([REDACTED])", "private diagnostic mismatch");
    diagnostics.push(diagnostic);
    let diagnostic = request.expected.diagnostic().to_string();
    assert!(diagnostic == "ExpectedContext([REDACTED])", "private diagnostic mismatch");
    diagnostics.push(diagnostic);
    let diagnostic = request.evidence.diagnostic().to_string();
    assert!(diagnostic == "EvidenceBundle([REDACTED])", "private diagnostic mismatch");
    diagnostics.push(diagnostic);

    let invalid = TransitionError::InvalidTransition {
        phase: VerificationPhase::EvidenceReceived,
        action: VerificationAction::Complete,
    };
    let diagnostic = invalid.message();
    assert_eq!(diagnostic, "verifier transition is not allowed");
    diagnostics.push(diagnostic);
    let diagnostic = invalid.diagnostic().to_string();
    assert_eq!(diagnostic, "TransitionError::InvalidTransition([REDACTED])");
    diagnostics.push(diagnostic);
    let rejected = TransitionError::CapabilityRejected {
        action: VerificationAction::RecordChallengeAuthenticated,
    };
    let diagnostic = rejected.message();
    assert_eq!(diagnostic, "verifier capability was rejected");
    diagnostics.push(diagnostic);
    let diagnostic = rejected.diagnostic().to_string();
    assert_eq!(diagnostic, "TransitionError::CapabilityRejected([REDACTED])");
    diagnostics.push(diagnostic);

    let diagnostic = flow.diagnostic();
    assert!(
        diagnostic == "VerifierFlow { phase: EvidenceReceived, outcome: None }",
        "private diagnostic mismatch"
    );
    diagnostics.push(diagnostic);

    for state in ALL_14_MODEL_STATES {
        let state_flow = private_flow_for_model_state(state);
        let diagnostic = state_flow.diagnostic();
        assert!(
            diagnostic == expected_flow_diagnostic(state),
            "private diagnostic mismatch"
        );
        diagnostics.push(diagnostic);
    }

    for state in [
        ModelState::Verified(AllowedClass::Full),
        ModelState::Verified(AllowedClass::Restricted),
        ModelState::Malformed,
        ModelState::Unsupported(UnsupportedRequirement::Platform),
        ModelState::Unsupported(UnsupportedRequirement::UnknownCriticalRequirement),
        ModelState::Retryable(RetryReason::TransientFailure),
        ModelState::Denied(DenialReason::ChallengeAuthenticationFailed),
        ModelState::Denied(DenialReason::NotYetValid),
        ModelState::Denied(DenialReason::Expired),
        ModelState::Denied(DenialReason::ReplayDetected),
        ModelState::Denied(DenialReason::ContextBindingMismatch),
        ModelState::Denied(DenialReason::EvidenceInvalid),
        ModelState::Denied(DenialReason::PolicyDenied),
        ModelState::Denied(DenialReason::ProtectedSessionLost),
        ModelState::Revoked,
    ] {
        let outcome_flow = flow_for_model_state(state, 85);
        let outcome = match outcome_flow.outcome() {
            Some(value) => value,
            None => panic!("terminal model state produced no report: {state:?}"),
        };
        let diagnostic = format!("{outcome:?}");
        let expected = match expected_outcome_diagnostic(state) {
            Some(value) => value,
            None => panic!("terminal model state lacked expected report: {state:?}"),
        };
        assert_eq!(diagnostic, expected);
        diagnostics.push(diagnostic);
    }

    diagnostics
}

fn model_is_terminal(state: ModelState) -> bool {
    !model_is_nonterminal(state)
}


fn assert_action_matches_model(
    index: usize,
    action: TestAction,
    expected: ExpectedAction,
    before: &FlowSnapshot,
    after: &FlowSnapshot,
    actual: &Result<ActionResult, TransitionError>,
) {
    match expected {
        ExpectedAction::Allowed(next) => {
            let expected_result = expected_action_result(before, next, action);
            assert!(
                actual == &Ok(expected_result),
                "allowed history action failed at index {index}: {action:?}"
            );
            assert!(
                after == &expected_success_snapshot(before, next, action),
                "allowed history state mismatch at index {index}: {action:?}"
            );
        }
        ExpectedAction::InvalidTransition => {
            assert!(
                actual
                    == &Err(TransitionError::InvalidTransition {
                        phase: before.phase,
                        action: action.public(),
                    }),
                "invalid-transition mismatch at index {index}: {action:?}"
            );
            expect_equal(after, before);
        }
        ExpectedAction::CapabilityRejected => {
            assert!(
                actual
                    == &Err(TransitionError::CapabilityRejected {
                        action: action.public(),
                    }),
                "capability-rejection mismatch at index {index}: {action:?}"
            );
            expect_equal(after, before);
        }
    }
}

#[test]
fn all_336_phase_action_pairs_match_the_independent_model() {
    let mut succeeded = 0usize;
    let mut rejected = 0usize;
    for state in ALL_14_MODEL_STATES {
        for action in ALL_24_MATRIX_ACTIONS {
            assert_ne!(action.binding_mode(), Some(BindingMode::OtherFlow));
            let mut flow = flow_for_model_state(state, 53);
            assert_flow_matches_model(&flow, state);
            let before = flow_snapshot(&flow);
            let expected = model_transition(state, action);
            if let Some(required_phase) = action.required_phase() {
                assert_eq!(
                    expected.is_some(),
                    model_phase(state) == required_phase,
                    "required-phase oracle mismatch: {state:?} {action:?}"
                );
            }
            let other_binding = flow_fixture(54).attempt_binding();
            let actual = apply_action(&mut flow, &other_binding, action);
            let after = flow_snapshot(&flow);
            match expected {
                Some(next) => {
                    assert_action_matches_model(
                        0,
                        action,
                        ExpectedAction::Allowed(next),
                        &before,
                        &after,
                        &actual,
                    );
                    succeeded += 1;
                }
                None => {
                    assert_action_matches_model(
                        0,
                        action,
                        ExpectedAction::InvalidTransition,
                        &before,
                        &after,
                        &actual,
                    );
                    rejected += 1;
                }
            }
        }
    }
    assert_eq!(ALL_14_MODEL_STATES.len(), 14);
    assert_eq!(ALL_24_MATRIX_ACTIONS.len(), 24);
    assert_eq!(succeeded, 50);
    assert_eq!(rejected, 286);
    assert_eq!(succeeded + rejected, 336);
}

#[test]
fn every_capability_rejects_an_equal_request_from_another_flow() {
    for gate in ALL_7_GATE_KINDS {
        let (source, mut target) = equal_flows_at_gate(gate, 71);
        let before = flow_snapshot(&target);
        let result = apply_capability_from_other_flow(gate, &source, &mut target);
        expect_equal(
            result,
            Err(TransitionError::CapabilityRejected {
                action: gate.action(),
            })
        );
        expect_equal(flow_snapshot(&target), before);
    }
}

#[test]
fn mismatched_capabilities_preserve_phase_before_binding_error_precedence() {
    for state in ALL_14_MODEL_STATES {
        for gate in ALL_7_GATE_KINDS {
            let source = flow_fixture(72);
            let mut target = flow_for_model_state(state, 72);
            let before = flow_snapshot(&target);
            let actual = apply_capability_from_other_flow(gate, &source, &mut target);
            let expected = if gate.required_phase() == model_phase(state) {
                TransitionError::CapabilityRejected {
                    action: gate.action(),
                }
            } else {
                TransitionError::InvalidTransition {
                    phase: model_phase(state),
                    action: gate.action(),
                }
            };
            expect_equal(actual, Err(expected));
            expect_equal(flow_snapshot(&target), before);
        }
    }
}

#[test]
fn every_flow_result_claim_view_and_error_diagnostic_is_redacted() {
    let mut flow = flow_with_private_sentinels();
    let diagnostics = diagnostics_for_every_surface(&mut flow);
    for required in [
        "AppraisalResult([REDACTED])",
        "AcceptedClaims([REDACTED])",
        "AppraisalResultView([REDACTED])",
    ] {
        assert!(diagnostics.iter().any(|diagnostic| diagnostic == required));
    }
    let forbidden = [
        "private.publisher",
        "private.game",
        "private-build",
        "private-account",
        "private-match",
        "private-policy",
        "private-profile",
        "private-accepted-profile",
        "private-evidence-payload",
        "3141592653",
        "4242",
        "4243",
        "4342",
        "d7",
        "D7",
        "215",
        "/home/",
        "::error::",
        "\n",
        "0x",
        "0",
        "1",
        "2",
        "3",
        "4",
        "5",
        "6",
        "7",
        "8",
        "9",
    ];

    for diagnostic in diagnostics {
        for sentinel in forbidden {
            assert!(
                !diagnostic.contains(sentinel),
                "private diagnostic exposed a forbidden value"
            );
        }
    }
}

#[test]
fn request_and_claims_exist_only_in_active_states() {
    for state in ALL_14_MODEL_STATES {
        let flow = flow_for_model_state(state, 83);
        let snapshot = flow_snapshot(&flow);
        assert_eq!(snapshot.has_request, model_is_nonterminal(state));
        assert_eq!(snapshot.has_profile, model_has_profile(state));
        assert_eq!(snapshot.has_session_key, model_has_session_key(state));
        assert_eq!(snapshot.has_allowed_class, model_has_allowed_class(state));
    }
}

const ALL_8_ACTIVE_MODEL_STATES: [ModelState; 8] = [
    ModelState::EvidenceReceived,
    ModelState::ChallengeAuthenticated,
    ModelState::FreshnessChecked,
    ModelState::IdentityChecked,
    ModelState::EvidenceAppraised,
    ModelState::SessionBound,
    ModelState::RevocationChecked,
    ModelState::PolicySatisfied(AllowedClass::Full),
];

const ALL_15_FAILURE_ACTIONS: [TestAction; 15] = [
    TestAction::MarkMalformed,
    TestAction::MarkUnsupported(UnsupportedRequirement::VersionOrProfile),
    TestAction::MarkUnsupported(UnsupportedRequirement::Platform),
    TestAction::MarkUnsupported(UnsupportedRequirement::UnknownCriticalRequirement),
    TestAction::MarkRetryable(RetryReason::AttestationUnavailable),
    TestAction::MarkRetryable(RetryReason::TransientFailure),
    TestAction::Deny(DenialReason::ChallengeAuthenticationFailed),
    TestAction::Deny(DenialReason::NotYetValid),
    TestAction::Deny(DenialReason::Expired),
    TestAction::Deny(DenialReason::ReplayDetected),
    TestAction::Deny(DenialReason::ContextBindingMismatch),
    TestAction::Deny(DenialReason::EvidenceInvalid),
    TestAction::Deny(DenialReason::PolicyDenied),
    TestAction::Deny(DenialReason::ProtectedSessionLost),
    TestAction::MarkRevoked,
];

fn eligible_failure_edges() -> Vec<(ModelState, TestAction)> {

    let retry = [
        TestAction::MarkRetryable(RetryReason::AttestationUnavailable),
        TestAction::MarkRetryable(RetryReason::TransientFailure),
    ];
    let unknown = TestAction::MarkUnsupported(UnsupportedRequirement::UnknownCriticalRequirement);
    let mut edges = vec![
        (ModelState::EvidenceReceived, TestAction::MarkMalformed),
        (ModelState::EvidenceReceived, TestAction::Deny(DenialReason::ChallengeAuthenticationFailed)),
        (ModelState::EvidenceReceived, retry[0]),
        (ModelState::EvidenceReceived, retry[1]),
        (ModelState::EvidenceReceived, unknown),
        (ModelState::ChallengeAuthenticated, TestAction::MarkUnsupported(UnsupportedRequirement::VersionOrProfile)),
        (ModelState::ChallengeAuthenticated, TestAction::Deny(DenialReason::NotYetValid)),
        (ModelState::ChallengeAuthenticated, TestAction::Deny(DenialReason::Expired)),
        (ModelState::ChallengeAuthenticated, TestAction::Deny(DenialReason::ReplayDetected)),
        (ModelState::ChallengeAuthenticated, TestAction::Deny(DenialReason::ContextBindingMismatch)),
        (ModelState::ChallengeAuthenticated, retry[0]),
        (ModelState::ChallengeAuthenticated, retry[1]),
        (ModelState::ChallengeAuthenticated, unknown),
        (ModelState::FreshnessChecked, TestAction::Deny(DenialReason::ContextBindingMismatch)),
        (ModelState::FreshnessChecked, retry[0]),
        (ModelState::FreshnessChecked, retry[1]),
        (ModelState::FreshnessChecked, unknown),
        (ModelState::IdentityChecked, TestAction::MarkUnsupported(UnsupportedRequirement::Platform)),
        (ModelState::IdentityChecked, TestAction::Deny(DenialReason::EvidenceInvalid)),
        (ModelState::IdentityChecked, retry[0]),
        (ModelState::IdentityChecked, retry[1]),
        (ModelState::IdentityChecked, unknown),
        (ModelState::EvidenceAppraised, TestAction::Deny(DenialReason::ContextBindingMismatch)),
        (ModelState::EvidenceAppraised, TestAction::Deny(DenialReason::ProtectedSessionLost)),
        (ModelState::EvidenceAppraised, retry[0]),
        (ModelState::EvidenceAppraised, retry[1]),
        (ModelState::EvidenceAppraised, unknown),
        (ModelState::SessionBound, TestAction::MarkRevoked),
        (ModelState::SessionBound, TestAction::Deny(DenialReason::ProtectedSessionLost)),
        (ModelState::SessionBound, retry[0]),
        (ModelState::SessionBound, retry[1]),
        (ModelState::SessionBound, unknown),
        (ModelState::RevocationChecked, TestAction::Deny(DenialReason::PolicyDenied)),
        (ModelState::RevocationChecked, TestAction::Deny(DenialReason::ProtectedSessionLost)),
        (ModelState::RevocationChecked, retry[0]),
        (ModelState::RevocationChecked, retry[1]),
        (ModelState::RevocationChecked, unknown),
    ];
    for action in [TestAction::Deny(DenialReason::ProtectedSessionLost), retry[0], retry[1], unknown] {
        edges.push((ModelState::PolicySatisfied(AllowedClass::Full), action));
    }
    edges
}

fn failure_mapping(action: TestAction) -> (VerificationPhase, Decision, ReasonCode) {
    match action {
        TestAction::MarkMalformed => (
            VerificationPhase::Malformed,
            Decision::Deny,
            ReasonCode::Malformed,
        ),
        TestAction::MarkUnsupported(requirement) => (
            VerificationPhase::Unsupported,
            Decision::Unsupported,
            match requirement {
                UnsupportedRequirement::VersionOrProfile => ReasonCode::UnsupportedVersionOrProfile,
                UnsupportedRequirement::Platform => ReasonCode::UnsupportedPlatform,
                UnsupportedRequirement::UnknownCriticalRequirement => {
                    ReasonCode::UnsupportedCriticalRequirement
                }
            },
        ),
        TestAction::MarkRetryable(reason) => (
            VerificationPhase::Retryable,
            Decision::Retry,
            match reason {
                RetryReason::AttestationUnavailable => ReasonCode::AttestationUnavailable,
                RetryReason::TransientFailure => ReasonCode::TransientFailure,
            },
        ),
        TestAction::Deny(reason) => (
            VerificationPhase::Denied,
            Decision::Deny,
            model_denial_reason(reason),
        ),
        TestAction::MarkRevoked => (
            VerificationPhase::Revoked,
            Decision::Deny,
            ReasonCode::Revoked,
        ),
        _ => panic!("non-failure action in failure mapping: {action:?}"),
    }
}

fn emit_test_failure(
    flow: &mut VerifierFlow,
    action: TestAction,
) -> Result<AppraisalResult, TransitionError> {
    match action {
        TestAction::MarkMalformed => flow.mark_malformed(),
        TestAction::MarkUnsupported(requirement) => flow.mark_unsupported(requirement),
        TestAction::MarkRetryable(reason) => flow.mark_retryable(reason),
        TestAction::Deny(reason) => flow.deny(reason),
        TestAction::MarkRevoked => flow.mark_revoked(),
        _ => panic!("non-failure action passed to failure emitter: {action:?}"),
    }
}

#[test]
fn all_phase_ineligible_failures_reject_without_mutation() {
    let eligible = eligible_failure_edges();
    let mut rejected = 0;
    for state in ALL_8_ACTIVE_MODEL_STATES {
        for action in ALL_15_FAILURE_ACTIONS {
            if eligible.contains(&(state, action)) {
                continue;
            }
            let mut flow = flow_for_model_state(state, 120);
            let before = flow_snapshot(&flow);
            match emit_test_failure(&mut flow, action) {
                Err(error) => expect_equal(
                    error,
                    TransitionError::InvalidTransition {
                        phase: model_phase(state),
                        action: action.public(),
                    }
                ),
                Ok(_) => panic!("ineligible edge emitted a result: {state:?} {action:?}"),
            }
            expect_equal(flow_snapshot(&flow), before);
            rejected += 1;
        }
    }
    assert_eq!(rejected, 79);}
