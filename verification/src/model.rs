//! The protocol values that the verifier reads: identifiers, times, challenge
//! windows and freshness policy, decisions and reason codes.
use vstd::prelude::*;

use crate::text::push_text;

verus! {

/// A bounded protocol identifier (publisher, game, build, account scope,
/// match, policy or evidence profile), held as its text.
#[derive(Clone, Hash)]
pub struct Identifier {
    text: String,
}

pub type PublisherId = Identifier;
pub type GameId = Identifier;
pub type BuildId = Identifier;
pub type AccountScope = Identifier;
pub type MatchId = Identifier;
pub type PolicyId = Identifier;
pub type EvidenceProfile = Identifier;

impl View for Identifier {
    type V = Seq<char>;

    closed spec fn view(&self) -> Seq<char> {
        self.text@
    }
}

impl Identifier {
    /// An identifier holding `text`.
    pub fn new(text: &str) -> (r: Identifier)
        ensures
            r@ == text@,
    {
        Identifier { text: text.to_owned() }
    }

    /// The identifier's text.
    pub fn as_str(&self) -> (r: &str)
        ensures
            r@ == self@,
    {
        self.text.as_str()
    }

    /// Whether two identifiers hold the same text.
    pub fn same(&self, other: &Identifier) -> (r: bool)
        ensures
            r == (self@ == other@),
    {
        self.text == other.text
    }

    /// A copy of this identifier.
    pub fn copy(&self) -> (r: Identifier)
        ensures
            r@ == self@,
    {
        Identifier { text: self.text.clone() }
    }
}

impl PartialEq for Identifier {
    fn eq(&self, other: &Self) -> (r: bool) {
        self.text == other.text
    }
}

impl Eq for Identifier {

}

impl vstd::std_specs::cmp::PartialEqSpecImpl for Identifier {
    open spec fn obeys_eq_spec() -> bool {
        true
    }

    open spec fn eq_spec(&self, other: &Self) -> bool {
        self@ == other@
    }
}

/// Seconds since the Unix epoch, on the publisher verifier's authoritative clock.
#[derive(Debug, Clone, Copy, PartialEq, Eq, PartialOrd, Ord, Hash, Structural)]
pub struct UnixTime {
    pub seconds: u64,
}

impl UnixTime {
    /// The time `seconds` after the epoch.
    pub fn new(seconds: u64) -> (r: UnixTime)
        ensures
            r.seconds == seconds,
    {
        UnixTime { seconds }
    }

    /// Seconds since the epoch.
    pub fn seconds(&self) -> (r: u64)
        ensures
            r == self.seconds,
    {
        self.seconds
    }
}

/// A policy version number.
#[derive(Debug, Clone, Copy, PartialEq, Eq, Hash, Structural)]
pub struct PolicyVersion {
    pub value: u32,
}

impl PolicyVersion {
    /// The version `value`.
    pub fn new(value: u32) -> (r: PolicyVersion)
        ensures
            r.value == value,
    {
        PolicyVersion { value }
    }
}

/// A protocol version.
#[derive(Debug, Clone, Copy, PartialEq, Eq, Hash, Structural)]
pub struct ProtocolVersion {
    pub major: u16,
    pub minor: u16,
}

/// A fixed-size challenge nonce.
#[derive(Clone, Copy, PartialEq, Eq, Hash)]
pub struct Nonce {
    bytes: [u8; 32],
}

impl View for Nonce {
    type V = Seq<u8>;

    closed spec fn view(&self) -> Seq<u8> {
        self.bytes@
    }
}

impl Nonce {
    /// The nonce with these bytes.
    pub fn from_bytes(bytes: [u8; 32]) -> (r: Nonce)
        ensures
            r@ == bytes@,
    {
        Nonce { bytes }
    }

    /// The nonce's bytes.
    pub fn as_bytes(&self) -> (r: &[u8; 32])
        ensures
            r@ == self@,
    {
        &self.bytes
    }

    /// Whether two nonces hold the same bytes.
    pub fn same(&self, other: &Nonce) -> (r: bool)
        ensures
            r == (self@ == other@),
    {
        let mut i: usize = 0;
        while i < 32
            invariant
                i <= 32,
                self.bytes@.len() == 32,
                other.bytes@.len() == 32,
                forall|j: int| 0 <= j < i ==> self.bytes@[j] == other.bytes@[j],
            decreases 32 - i,
        {
            if self.bytes[i] != other.bytes[i] {
                return false;
            }
            i = i + 1;
        }
        assert(self.bytes@ =~= other.bytes@);
        true
    }
}

/// A session public-key lookup handle.
#[derive(Clone, Copy, PartialEq, Eq, Hash)]
pub struct SessionPublicKeyId {
    bytes: [u8; 32],
}

impl View for SessionPublicKeyId {
    type V = Seq<u8>;

    closed spec fn view(&self) -> Seq<u8> {
        self.bytes@
    }
}

impl SessionPublicKeyId {
    /// The handle with these bytes.
    pub fn from_bytes(bytes: [u8; 32]) -> (r: SessionPublicKeyId)
        ensures
            r@ == bytes@,
    {
        SessionPublicKeyId { bytes }
    }

    /// The handle's bytes.
    pub fn as_bytes(&self) -> (r: &[u8; 32])
        ensures
            r@ == self@,
    {
        &self.bytes
    }
}

/// Freshness and replay-state failures. Deterministic, non-disciplinary.
#[derive(Debug, Clone, Copy, PartialEq, Eq, Hash, Structural)]
pub enum FreshnessError {
    /// The challenge window is invalid.
    InvalidWindow,
    /// The challenge lifetime exceeds policy.
    LifetimeExceeded,
    /// The challenge is not yet valid.
    NotYetValid,
    /// The challenge is expired.
    Expired,
    /// The challenge nonce is already registered or consumed.
    ReplayDetected,
    /// The authoritative clock moved backward.
    ClockRollback,
    /// The freshness state is unavailable.
    StateUnavailable,
    /// The freshness state capacity is exhausted.
    CapacityExceeded,
}

/// The description of a freshness failure.
pub open spec fn freshness_message(error: FreshnessError) -> Seq<char> {
    match error {
        FreshnessError::InvalidWindow => "challenge window is invalid"@,
        FreshnessError::LifetimeExceeded => "challenge lifetime exceeds policy"@,
        FreshnessError::NotYetValid => "challenge is not yet valid"@,
        FreshnessError::Expired => "challenge is expired"@,
        FreshnessError::ReplayDetected => "challenge nonce is already registered or consumed"@,
        FreshnessError::ClockRollback => "authoritative clock moved backward"@,
        FreshnessError::StateUnavailable => "freshness state is unavailable"@,
        FreshnessError::CapacityExceeded => "freshness state capacity is exhausted"@,
    }
}

impl FreshnessError {
    /// The human-readable description of this failure.
    pub fn message(&self) -> (r: String)
        ensures
            r@ == freshness_message(*self),
    {
        let text = match self {
            FreshnessError::InvalidWindow => "challenge window is invalid",
            FreshnessError::LifetimeExceeded => "challenge lifetime exceeds policy",
            FreshnessError::NotYetValid => "challenge is not yet valid",
            FreshnessError::Expired => "challenge is expired",
            FreshnessError::ReplayDetected => "challenge nonce is already registered or consumed",
            FreshnessError::ClockRollback => "authoritative clock moved backward",
            FreshnessError::StateUnavailable => "freshness state is unavailable",
            FreshnessError::CapacityExceeded => "freshness state capacity is exhausted",
        };
        text.to_owned()
    }
}

/// The longest lifetime a challenge may have, in seconds; never zero.
#[derive(Debug, Clone, Copy, PartialEq, Eq, Hash, Structural)]
pub struct ChallengeLifetime {
    seconds: u64,
}

impl ChallengeLifetime {
    #[verifier::type_invariant]
    spec fn positive(self) -> bool {
        self.seconds > 0
    }

    /// The lifetime's length in seconds.
    pub closed spec fn spec_seconds(self) -> u64 {
        self.seconds
    }

    /// A lifetime of `seconds` seconds.
    pub fn new(seconds: u64) -> (r: ChallengeLifetime)
        requires
            seconds > 0,
        ensures
            r.spec_seconds() == seconds,
    {
        ChallengeLifetime { seconds }
    }

    /// The lifetime's length in seconds.
    pub fn seconds(&self) -> (r: u64)
        ensures
            r == self.spec_seconds(),
            r > 0,
    {
        proof {
            use_type_invariant(self);
        }
        self.seconds
    }
}

/// The validity window of one challenge: valid from `issued_at` until just
/// before `expires_at`.
#[derive(Debug, Clone, Copy, PartialEq, Eq, Hash, Structural)]
pub struct ChallengeWindow {
    pub issued_at: UnixTime,
    pub expires_at: UnixTime,
}

/// What `ChallengeWindow::new` returns.
pub open spec fn spec_window(issued_at: u64, expires_at: u64, maximum: u64) -> Result<
    ChallengeWindow,
    FreshnessError,
> {
    if expires_at <= issued_at {
        Err(FreshnessError::InvalidWindow)
    } else if expires_at - issued_at > maximum {
        Err(FreshnessError::LifetimeExceeded)
    } else {
        Ok(
            ChallengeWindow {
                issued_at: UnixTime { seconds: issued_at },
                expires_at: UnixTime { seconds: expires_at },
            },
        )
    }
}

/// What evaluating a window at `now` returns: strict on both ends.
pub open spec fn spec_evaluate(window: ChallengeWindow, now: u64) -> Result<(), FreshnessError> {
    if now < window.issued_at.seconds {
        Err(FreshnessError::NotYetValid)
    } else if now >= window.expires_at.seconds {
        Err(FreshnessError::Expired)
    } else {
        Ok(())
    }
}

impl ChallengeWindow {
    /// A window from `issued_at` to `expires_at` no longer than `maximum`.
    pub fn new(issued_at: UnixTime, expires_at: UnixTime, maximum: ChallengeLifetime) -> (r: Result<
        ChallengeWindow,
        FreshnessError,
    >)
        ensures
            r == spec_window(issued_at.seconds, expires_at.seconds, maximum.spec_seconds()),
    {
        if expires_at.seconds <= issued_at.seconds {
            Err(FreshnessError::InvalidWindow)
        } else if expires_at.seconds - issued_at.seconds > maximum.seconds() {
            Err(FreshnessError::LifetimeExceeded)
        } else {
            Ok(ChallengeWindow { issued_at, expires_at })
        }
    }

    /// When the challenge was issued.
    pub fn issued_at(&self) -> (r: UnixTime)
        ensures
            r == self.issued_at,
    {
        self.issued_at
    }

    /// When the challenge expires.
    pub fn expires_at(&self) -> (r: UnixTime)
        ensures
            r == self.expires_at,
    {
        self.expires_at
    }

    /// Whether the window admits `now`.
    pub fn evaluate(&self, now: UnixTime) -> (r: Result<(), FreshnessError>)
        ensures
            r == spec_evaluate(*self, now.seconds),
    {
        if now.seconds < self.issued_at.seconds {
            Err(FreshnessError::NotYetValid)
        } else if now.seconds >= self.expires_at.seconds {
            Err(FreshnessError::Expired)
        } else {
            Ok(())
        }
    }
}

/// Freshness policy: the longest challenge lifetime and the bounds on
/// outstanding challenges and on issuance rate. No bound is zero.
#[derive(Debug, Clone, Copy, PartialEq, Eq, Hash, Structural)]
pub struct FreshnessLimits {
    max_lifetime: ChallengeLifetime,
    max_outstanding_total: usize,
    max_outstanding_per_publisher: usize,
    max_outstanding_per_account: usize,
    issuance_rate_window_seconds: u64,
    max_issuances_per_publisher: usize,
}

impl FreshnessLimits {
    #[verifier::type_invariant]
    spec fn positive(self) -> bool {
        &&& self.max_outstanding_total > 0
        &&& self.max_outstanding_per_publisher > 0
        &&& self.max_outstanding_per_account > 0
        &&& self.issuance_rate_window_seconds > 0
        &&& self.max_issuances_per_publisher > 0
    }

    pub closed spec fn spec_max_lifetime(self) -> u64 {
        self.max_lifetime.spec_seconds()
    }

    pub closed spec fn spec_max_outstanding_total(self) -> usize {
        self.max_outstanding_total
    }

    pub closed spec fn spec_max_outstanding_per_publisher(self) -> usize {
        self.max_outstanding_per_publisher
    }

    pub closed spec fn spec_max_outstanding_per_account(self) -> usize {
        self.max_outstanding_per_account
    }

    pub closed spec fn spec_issuance_rate_window_seconds(self) -> u64 {
        self.issuance_rate_window_seconds
    }

    pub closed spec fn spec_max_issuances_per_publisher(self) -> usize {
        self.max_issuances_per_publisher
    }

    /// Selects every freshness bound explicitly.
    pub fn new(
        max_lifetime: ChallengeLifetime,
        max_outstanding_total: usize,
        max_outstanding_per_publisher: usize,
        max_outstanding_per_account: usize,
        issuance_rate_window_seconds: u64,
        max_issuances_per_publisher: usize,
    ) -> (r: FreshnessLimits)
        requires
            max_outstanding_total > 0,
            max_outstanding_per_publisher > 0,
            max_outstanding_per_account > 0,
            issuance_rate_window_seconds > 0,
            max_issuances_per_publisher > 0,
        ensures
            r.spec_max_lifetime() == max_lifetime.spec_seconds(),
            r.spec_max_outstanding_total() == max_outstanding_total,
            r.spec_max_outstanding_per_publisher() == max_outstanding_per_publisher,
            r.spec_max_outstanding_per_account() == max_outstanding_per_account,
            r.spec_issuance_rate_window_seconds() == issuance_rate_window_seconds,
            r.spec_max_issuances_per_publisher() == max_issuances_per_publisher,
    {
        FreshnessLimits {
            max_lifetime,
            max_outstanding_total,
            max_outstanding_per_publisher,
            max_outstanding_per_account,
            issuance_rate_window_seconds,
            max_issuances_per_publisher,
        }
    }

    /// The longest challenge lifetime.
    pub fn max_lifetime(&self) -> (r: ChallengeLifetime)
        ensures
            r.spec_seconds() == self.spec_max_lifetime(),
    {
        self.max_lifetime
    }

    /// The bound on outstanding challenges.
    pub fn max_outstanding_total(&self) -> (r: usize)
        ensures
            r == self.spec_max_outstanding_total(),
            r > 0,
    {
        proof {
            use_type_invariant(self);
        }
        self.max_outstanding_total
    }

    /// The bound on outstanding challenges per publisher.
    pub fn max_outstanding_per_publisher(&self) -> (r: usize)
        ensures
            r == self.spec_max_outstanding_per_publisher(),
            r > 0,
    {
        proof {
            use_type_invariant(self);
        }
        self.max_outstanding_per_publisher
    }

    /// The bound on outstanding challenges per publisher account.
    pub fn max_outstanding_per_account(&self) -> (r: usize)
        ensures
            r == self.spec_max_outstanding_per_account(),
            r > 0,
    {
        proof {
            use_type_invariant(self);
        }
        self.max_outstanding_per_account
    }

    /// The window over which issuances count against the rate bound.
    pub fn issuance_rate_window_seconds(&self) -> (r: u64)
        ensures
            r == self.spec_issuance_rate_window_seconds(),
            r > 0,
    {
        proof {
            use_type_invariant(self);
        }
        self.issuance_rate_window_seconds
    }

    /// The bound on issuances per publisher within the rate window.
    pub fn max_issuances_per_publisher(&self) -> (r: usize)
        ensures
            r == self.spec_max_issuances_per_publisher(),
            r > 0,
    {
        proof {
            use_type_invariant(self);
        }
        self.max_issuances_per_publisher
    }
}

/// A verifier decision report.
#[derive(Debug, Clone, Copy, PartialEq, Eq, Hash, Structural)]
pub enum Decision {
    Allow,
    AllowRestricted,
    Deny,
    Unsupported,
    Retry,
}

/// A structured, non-disciplinary reason report.
#[derive(Debug, Clone, Copy, PartialEq, Eq, Hash, Structural)]
pub enum ReasonCode {
    Malformed,
    UnsupportedVersionOrProfile,
    UnsupportedPlatform,
    UnsupportedCriticalRequirement,
    AttestationUnavailable,
    TransientFailure,
    ChallengeAuthenticationFailed,
    NotYetValid,
    Expired,
    ReplayDetected,
    ContextBindingMismatch,
    EvidenceInvalid,
    PolicyDenied,
    ProtectedSessionLost,
    Revoked,
}

/// A signed publisher challenge as the verifier retains it.
#[derive(Clone, PartialEq, Eq)]
pub struct PublisherChallenge {
    pub version: ProtocolVersion,
    pub publisher_id: PublisherId,
    pub game_id: GameId,
    pub build_id: BuildId,
    pub account_scope: AccountScope,
    pub match_id: MatchId,
    pub policy_id: PolicyId,
    pub policy_version: PolicyVersion,
    pub nonce: Nonce,
    pub window: ChallengeWindow,
}

/// Evidence received from the attester.
#[derive(Clone, PartialEq, Eq)]
pub struct EvidenceBundle {
    pub profile_id: EvidenceProfile,
    pub payload: Vec<u8>,
}

impl EvidenceBundle {
    /// The redacted diagnostic text.
    pub fn diagnostic(&self) -> (r: &'static str)
        ensures
            r@ == "EvidenceBundle([REDACTED])"@,
    {
        "EvidenceBundle([REDACTED])"
    }
}

} // verus!
