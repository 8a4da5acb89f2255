//! Atomic challenge registration and replay-claim contracts.
use vstd::prelude::*;

use crate::model::{
    AccountScope, BuildId, ChallengeWindow, FreshnessError, FreshnessLimits, GameId, MatchId,
    Nonce, PolicyId, PolicyVersion, PublisherChallenge, PublisherId, UnixTime, spec_evaluate,
};
use crate::verification::VerificationBinding;

verus! {

/// Publisher-scoped replay identity for one challenge nonce.
#[derive(Clone, PartialEq, Eq, Hash)]
pub struct ReplayKey {
    publisher_id: PublisherId,
    nonce: Nonce,
}

/// The content of a replay key: the publisher's text and the nonce bytes.
pub struct KeyView {
    pub publisher: Seq<char>,
    pub nonce: Seq<u8>,
}

impl View for ReplayKey {
    type V = KeyView;

    closed spec fn view(&self) -> KeyView {
        KeyView { publisher: self.publisher_id@, nonce: self.nonce@ }
    }
}

impl ReplayKey {
    /// Returns the authenticated publisher namespace.
    pub fn publisher_id(&self) -> (r: &PublisherId)
        ensures
            r@ == self@.publisher,
    {
        &self.publisher_id
    }

    /// Returns the fixed-size nonce value.
    pub fn nonce(&self) -> (r: Nonce)
        ensures
            r@ == self@.nonce,
    {
        self.nonce
    }

    /// Whether two keys name the same publisher and nonce.
    pub fn same(&self, other: &ReplayKey) -> (r: bool)
        ensures
            r == (self@ == other@),
    {
        self.publisher_id.same(&other.publisher_id) && self.nonce.same(&other.nonce)
    }

    /// The redacted diagnostic text.
    pub fn diagnostic(&self) -> (r: &'static str)
        ensures
            r@ == "ReplayKey([REDACTED])"@,
    {
        "ReplayKey([REDACTED])"
    }
}

/// Context retained with a replay record but excluded from replay identity.
#[derive(Clone, PartialEq, Eq)]
pub struct ChallengeBinding {
    game_id: GameId,
    build_id: BuildId,
    account_scope: AccountScope,
    match_id: MatchId,
    policy_id: PolicyId,
    policy_version: PolicyVersion,
}

/// The content of a challenge binding.
pub struct BindingView {
    pub game: Seq<char>,
    pub build: Seq<char>,
    pub account: Seq<char>,
    pub match_id: Seq<char>,
    pub policy: Seq<char>,
    pub policy_version: u32,
}

impl View for ChallengeBinding {
    type V = BindingView;

    closed spec fn view(&self) -> BindingView {
        BindingView {
            game: self.game_id@,
            build: self.build_id@,
            account: self.account_scope@,
            match_id: self.match_id@,
            policy: self.policy_id@,
            policy_version: self.policy_version.value,
        }
    }
}

impl ChallengeBinding {
    /// Returns the bound game identifier.
    pub fn game_id(&self) -> (r: &GameId)
        ensures
            r@ == self@.game,
    {
        &self.game_id
    }

    /// Returns the bound build identifier.
    pub fn build_id(&self) -> (r: &BuildId)
        ensures
            r@ == self@.build,
    {
        &self.build_id
    }

    /// Returns the privacy-sensitive publisher account scope.
    pub fn account_scope(&self) -> (r: &AccountScope)
        ensures
            r@ == self@.account,
    {
        &self.account_scope
    }

    /// Returns the privacy-sensitive match identifier.
    pub fn match_id(&self) -> (r: &MatchId)
        ensures
            r@ == self@.match_id,
    {
        &self.match_id
    }

    /// Returns the bound policy identifier.
    pub fn policy_id(&self) -> (r: &PolicyId)
        ensures
            r@ == self@.policy,
    {
        &self.policy_id
    }

    /// Returns the bound policy version.
    pub fn policy_version(&self) -> (r: PolicyVersion)
        ensures
            r.value == self@.policy_version,
    {
        self.policy_version
    }

    /// Whether two bindings carry the same context.
    pub fn same(&self, other: &ChallengeBinding) -> (r: bool)
        ensures
            r == (self@ == other@),
    {
        self.game_id.same(&other.game_id) && self.build_id.same(&other.build_id)
            && self.account_scope.same(&other.account_scope) && self.match_id.same(&other.match_id)
            && self.policy_id.same(&other.policy_id) && self.policy_version.value
            == other.policy_version.value
    }

    /// The redacted diagnostic text.
    pub fn diagnostic(&self) -> (r: &'static str)
        ensures
            r@ == "ChallengeBinding([REDACTED])"@,
    {
        "ChallengeBinding([REDACTED])"
    }
}

/// Complete replay-state registration derived from a publisher challenge.
#[derive(Clone, PartialEq, Eq)]
pub struct ReplayRegistration {
    key: ReplayKey,
    binding: ChallengeBinding,
    window: ChallengeWindow,
}

/// The content of a registration.
pub struct RegistrationView {
    pub key: KeyView,
    pub binding: BindingView,
    pub window: ChallengeWindow,
}

impl View for ReplayRegistration {
    type V = RegistrationView;

    closed spec fn view(&self) -> RegistrationView {
        RegistrationView { key: self.key@, binding: self.binding@, window: self.window }
    }
}

/// The registration that a challenge yields: its publisher and nonce as key,
/// its game, build, account, match and policy as binding, and its window.
pub open spec fn challenge_registration(challenge: PublisherChallenge) -> RegistrationView {
    RegistrationView {
        key: KeyView { publisher: challenge.publisher_id@, nonce: challenge.nonce@ },
        binding: BindingView {
            game: challenge.game_id@,
            build: challenge.build_id@,
            account: challenge.account_scope@,
            match_id: challenge.match_id@,
            policy: challenge.policy_id@,
            policy_version: challenge.policy_version.value,
        },
        window: challenge.window,
    }
}

impl ReplayRegistration {
    /// Copies replay identity, binding, and window fields from `challenge`.
    pub fn from_challenge(challenge: &PublisherChallenge) -> (r: ReplayRegistration)
        ensures
            r@ == challenge_registration(*challenge),
    {
        ReplayRegistration {
            key: ReplayKey {
                publisher_id: challenge.publisher_id.copy(),
                nonce: challenge.nonce,
            },
            binding: ChallengeBinding {
                game_id: challenge.game_id.copy(),
                build_id: challenge.build_id.copy(),
                account_scope: challenge.account_scope.copy(),
                match_id: challenge.match_id.copy(),
                policy_id: challenge.policy_id.copy(),
                policy_version: challenge.policy_version,
            },
            window: challenge.window,
        }
    }

    /// A copy of this registration.
    pub fn copy(&self) -> (r: ReplayRegistration)
        ensures
            r@ == self@,
    {
        ReplayRegistration {
            key: ReplayKey { publisher_id: self.key.publisher_id.copy(), nonce: self.key.nonce },
            binding: ChallengeBinding {
                game_id: self.binding.game_id.copy(),
                build_id: self.binding.build_id.copy(),
                account_scope: self.binding.account_scope.copy(),
                match_id: self.binding.match_id.copy(),
                policy_id: self.binding.policy_id.copy(),
                policy_version: self.binding.policy_version,
            },
            window: self.window,
        }
    }

    /// Returns the exact publisher/nonce replay key.
    pub fn key(&self) -> (r: &ReplayKey)
        ensures
            r@ == self@.key,
    {
        &self.key
    }

    /// Returns the context that must match during claim.
    pub fn binding(&self) -> (r: &ChallengeBinding)
        ensures
            r@ == self@.binding,
    {
        &self.binding
    }

    /// Returns the registered validity window.
    pub fn window(&self) -> (r: ChallengeWindow)
        ensures
            r == self@.window,
    {
        self.window
    }

    /// The redacted diagnostic text.
    pub fn diagnostic(&self) -> (r: &'static str)
        ensures
            r@ == "ReplayRegistration([REDACTED])"@,
    {
        "ReplayRegistration([REDACTED])"
    }
}

/// Atomic persistence boundary for challenge issuance and replay claims.
///
/// Implementations are publisher-controlled trusted infrastructure. Each
/// method must update/check its authoritative-time high-water mark and
/// complete its state transition atomically and durably before returning
/// success.
pub trait ReplayStore: Send + Sync {
    /// Atomically checks and advances the authoritative-time high-water mark.
    fn observe_time(&self, now: UnixTime) -> Result<(), FreshnessError>;

    /// Atomically validates limits and registers an issued challenge.
    fn register(
        &self,
        now: UnixTime,
        registration: &ReplayRegistration,
        limits: FreshnessLimits,
    ) -> Result<(), FreshnessError>;

    /// Atomically changes one matching issued record to consumed.
    fn claim(&self, now: UnixTime, registration: &ReplayRegistration) -> Result<(), FreshnessError>;

    /// Atomically removes replay records and issuance-rate history whose
    /// enforcement windows ended at the persisted time floor; returns the
    /// count of removed replay records.
    fn purge_expired(&self, now: UnixTime) -> Result<usize, FreshnessError>;
}

/// Proof that one registered challenge passed the ordered verifier freshness
/// and relying-party-context gates plus the atomic claim.
pub struct FreshnessChecked {
    binding: VerificationBinding,
}

impl FreshnessChecked {
    /// A freshness capability bound to one verification attempt.
    ///
    /// This constructor is public: any holder of the attempt's binding can
    /// build the capability, so the transition it unlocks is only as sound as
    /// the caller that builds it once the matching verification step succeeds.
    pub fn for_attempt(binding: VerificationBinding) -> (r: FreshnessChecked)
        ensures
            r.attempt() == binding,
    {
        FreshnessChecked { binding }
    }

    /// The attempt this capability is bound to.
    pub closed spec fn attempt(&self) -> VerificationBinding {
        self.binding
    }

    pub(crate) fn binding(&self) -> (r: &VerificationBinding)
        ensures
            *r == self.attempt(),
    {
        &self.binding
    }

    /// The redacted diagnostic text.
    pub fn diagnostic(&self) -> (r: &'static str)
        ensures
            r@ == "FreshnessChecked([REDACTED])"@,
    {
        "FreshnessChecked([REDACTED])"
    }
}

/// Deep freshness boundary over one trusted replay-store implementation.
pub struct FreshnessGuard<'store, Store: ?Sized> {
    store: &'store Store,
    limits: FreshnessLimits,
}

impl<'store, Store: ReplayStore + ?Sized> FreshnessGuard<'store, Store> {
    /// Binds a replay store to an explicit freshness policy.
    pub fn new(store: &'store Store, limits: FreshnessLimits) -> (r: Self)
        ensures
            r.policy() == limits,
    {
        FreshnessGuard { store, limits }
    }

    /// The freshness policy this guard registers under.
    pub closed spec fn policy(&self) -> FreshnessLimits {
        self.limits
    }

    /// Durably observes authoritative time, then evaluates a challenge
    /// window. A failure of the store comes first; otherwise the window's
    /// strict verdict at `now` is returned.
    pub fn evaluate_window(&self, now: UnixTime, challenge: &PublisherChallenge) -> (r: Result<
        (),
        FreshnessError,
    >)
        ensures
            r is Ok ==> spec_evaluate(challenge.window, now.seconds) is Ok,
            r != spec_evaluate(challenge.window, now.seconds) ==> r is Err,
    {
        self.store.observe_time(now)?;
        challenge.window.evaluate(now)
    }

    /// Validates and atomically registers a challenge before it is returned:
    /// hands the store the challenge's registration under this guard's policy.
    pub fn register(&self, now: UnixTime, challenge: &PublisherChallenge) -> Result<(), FreshnessError> {
        let registration = ReplayRegistration::from_challenge(challenge);
        self.store.register(now, &registration, self.limits)
    }

    /// Atomically consumes a registered challenge without creating a
    /// capability: hands the store the challenge's registration.
    pub fn claim(&self, now: UnixTime, challenge: &PublisherChallenge) -> Result<(), FreshnessError> {
        let registration = ReplayRegistration::from_challenge(challenge);
        self.store.claim(now, &registration)
    }

    /// Removes only replay and rate-limit state whose enforcement windows
    /// ended at the replay store's time floor; returns the store's count.
    pub fn purge_expired(&self, now: UnixTime) -> Result<usize, FreshnessError> {
        self.store.purge_expired(now)
    }

    /// The redacted diagnostic text.
    pub fn diagnostic(&self) -> (r: &'static str)
        ensures
            r@ == "FreshnessGuard([REDACTED])"@,
    {
        "FreshnessGuard([REDACTED])"
    }
}

} // verus!
