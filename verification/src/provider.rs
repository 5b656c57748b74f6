//! Role credentials that are cached and renewed shortly before they expire.
//!
//! The provider decides; it makes no call itself. Its user asks for the
//! next action, assumes the role where that is the action, and hands the
//! outcome back.

use crate::error::{ErrorView, StsClientError};
use crate::instance::{InstanceView, StsInstance};
use vstd::prelude::*;

verus! {

/// Seconds before their expiry at which cached credentials count as stale.
pub const EXPIRY_MARGIN_SECONDS: i64 = 20;

/// Session name under which the role is assumed.
pub const SESSION_NAME: &'static str = "default";

/// A short-lived set of credentials, as assuming a role gives it. It
/// cannot be printed: it holds the secret.
pub struct TemporaryCredentials {
    pub access_key_id: String,
    pub secret_access_key: String,
    pub session_token: String,
    /// Seconds since the Unix epoch.
    pub expires_at: i64,
}

/// The mathematical value of [`TemporaryCredentials`].
pub ghost struct CredentialsView {
    pub access_key_id: Seq<char>,
    pub secret_access_key: Seq<char>,
    pub session_token: Seq<char>,
    pub expires_at: int,
}

impl View for TemporaryCredentials {
    type V = CredentialsView;

    open spec fn view(&self) -> CredentialsView {
        CredentialsView {
            access_key_id: self.access_key_id@,
            secret_access_key: self.secret_access_key@,
            session_token: self.session_token@,
            expires_at: self.expires_at as int,
        }
    }
}

impl Clone for TemporaryCredentials {
    fn clone(&self) -> (r: Self)
        ensures
            r@ == self@,
    {
        TemporaryCredentials {
            access_key_id: self.access_key_id.clone(),
            secret_access_key: self.secret_access_key.clone(),
            session_token: self.session_token.clone(),
            expires_at: self.expires_at,
        }
    }
}

/// Where the cache stands at some time.
#[derive(Debug, Clone, Copy, PartialEq, Eq, Structural)]
pub enum CacheState {
    /// Nothing is cached.
    Empty,
    /// The cached set expires no sooner than the margin from now.
    Valid,
    /// The cached set has expired or expires within the margin.
    Stale,
}

/// What the caller has to do to get credentials.
pub enum CredentialAction {
    /// Use these: they are cached and valid.
    UseCached(TemporaryCredentials),
    /// Assume the role under this session name, with the base key and no
    /// further options, and hand the outcome to `complete_refresh`.
    AssumeRole { role_arn: String, session_name: String },
}

/// The mathematical value of a [`CredentialAction`].
pub ghost enum ActionView {
    UseCached(CredentialsView),
    AssumeRole { role_arn: Seq<char>, session_name: Seq<char> },
}

impl View for CredentialAction {
    type V = ActionView;

    open spec fn view(&self) -> ActionView {
        match self {
            CredentialAction::UseCached(c) => ActionView::UseCached(c@),
            CredentialAction::AssumeRole { role_arn, session_name } => ActionView::AssumeRole {
                role_arn: role_arn@,
                session_name: session_name@,
            },
        }
    }
}

/// Whether credentials that expire at `expires_at` still count as valid at
/// `now`: their expiry lies at least the margin ahead.
pub open spec fn is_fresh(expires_at: int, now: int) -> bool {
    now + EXPIRY_MARGIN_SECONDS <= expires_at
}

/// The mathematical value of an [`StsAuthProvider`].
pub ghost struct ProviderView {
    pub base: InstanceView,
    pub role_arn: Seq<char>,
    pub cached: Option<CredentialsView>,
}

impl ProviderView {
    /// Where the cache stands at `now`.
    pub open spec fn state(self, now: int) -> CacheState {
        match self.cached {
            None => CacheState::Empty,
            Some(c) => if is_fresh(c.expires_at, now) {
                CacheState::Valid
            } else {
                CacheState::Stale
            },
        }
    }

    /// What a caller at `now` has to do: use the cached set while it is
    /// valid, else assume the role.
    pub open spec fn action(self, now: int) -> ActionView {
        match self.cached {
            Some(c) if is_fresh(c.expires_at, now) => ActionView::UseCached(c),
            _ => ActionView::AssumeRole { role_arn: self.role_arn, session_name: SESSION_NAME@ },
        }
    }

    /// The provider after an attempt to assume the role: a new set replaces
    /// the cached one as a whole; a failure leaves the cache as it was.
    pub open spec fn after_refresh(self, outcome: Result<CredentialsView, ErrorView>) -> Self {
        match outcome {
            Ok(c) => ProviderView { base: self.base, role_arn: self.role_arn, cached: Some(c) },
            Err(_) => self,
        }
    }
}

/// What a run of callers sees who take their turns one after the other.
pub ghost struct Served {
    /// The provider after the last turn.
    pub provider: ProviderView,
    /// What each caller was handed, in the order of the turns.
    pub handed: Seq<CredentialsView>,
    /// How often the role was assumed.
    pub calls: nat,
}

/// The turns of callers at `times`, one after the other, where each
/// attempt to assume the role succeeds with `granted`. A turn is the whole
/// of asking for the action, assuming the role where that is the action,
/// and handing back the outcome.
pub open spec fn serve(provider: ProviderView, times: Seq<int>, granted: CredentialsView) -> Served
    decreases times.len(),
{
    if times.len() == 0 {
        Served { provider, handed: Seq::empty(), calls: 0 }
    } else {
        let before = serve(provider, times.drop_last(), granted);
        match before.provider.action(times.last()) {
            ActionView::UseCached(c) => Served {
                provider: before.provider,
                handed: before.handed.push(c),
                calls: before.calls,
            },
            ActionView::AssumeRole { .. } => Served {
                provider: before.provider.after_refresh(Ok(granted)),
                handed: before.handed.push(granted),
                calls: before.calls + 1,
            },
        }
    }
}

/// The mathematical value of the outcome of assuming a role.
pub open spec fn outcome_view(outcome: Result<TemporaryCredentials, StsClientError>) -> Result<
    CredentialsView,
    ErrorView,
> {
    match outcome {
        Ok(c) => Ok(c@),
        Err(e) => Err(e@),
    }
}

/// The cache of the credentials of one assumed role, with what is needed to
/// renew them.
pub struct StsAuthProvider {
    base: StsInstance,
    role_arn: String,
    cached: Option<TemporaryCredentials>,
}

impl View for StsAuthProvider {
    type V = ProviderView;

    closed spec fn view(&self) -> ProviderView {
        ProviderView {
            base: self.base@,
            role_arn: self.role_arn@,
            cached: match self.cached {
                Some(c) => Some(c@),
                None => None,
            },
        }
    }
}

impl StsAuthProvider {
    /// A provider for `role_arn`, assumed with the key of `base`; nothing is
    /// cached yet.
    pub fn new(base: StsInstance, role_arn: String) -> (r: Self)
        ensures
            r@ == (ProviderView { base: base@, role_arn: role_arn@, cached: None }),
    {
        StsAuthProvider { base, role_arn, cached: None }
    }

    /// The key that the role is assumed with.
    pub fn base(&self) -> (r: &StsInstance)
        ensures
            r@ == self@.base,
    {
        &self.base
    }

    /// Where the cache stands at `now`, in seconds since the Unix epoch.
    pub fn state(&self, now: i64) -> (r: CacheState)
        ensures
            r == self@.state(now as int),
    {
        match &self.cached {
            None => CacheState::Empty,
            Some(c) => if now as i128 + EXPIRY_MARGIN_SECONDS as i128 <= c.expires_at as i128 {
                CacheState::Valid
            } else {
                CacheState::Stale
            },
        }
    }

    /// What a caller who wants credentials at `now` has to do. The provider
    /// itself does not change.
    pub fn next_action(&self, now: i64) -> (r: CredentialAction)
        ensures
            r@ == self@.action(now as int),
    {
        match &self.cached {
            Some(c) => {
                if now as i128 + EXPIRY_MARGIN_SECONDS as i128 <= c.expires_at as i128 {
                    return CredentialAction::UseCached(c.clone());
                }
            },
            None => {},
        }
        CredentialAction::AssumeRole {
            role_arn: self.role_arn.clone(),
            session_name: SESSION_NAME.to_owned(),
        }
    }

    /// Takes the outcome of assuming the role and passes it on to the
    /// caller. A new set of credentials is cached in place of the old one; a
    /// failure changes nothing, so that the next caller tries again.
    pub fn complete_refresh(
        &mut self,
        outcome: Result<TemporaryCredentials, StsClientError>,
    ) -> (r: Result<TemporaryCredentials, StsClientError>)
        ensures
            final(self)@ == old(self)@.after_refresh(outcome_view(outcome)),
            outcome_view(r) == outcome_view(outcome),
    {
        match outcome {
            Ok(c) => {
                self.cached = Some(c.clone());
                Ok(c)
            },
            Err(e) => Err(e),
        }
    }
}

/// A set that was just cached is handed out, with no new call, at every
/// time that lies at least the margin before its expiry.
pub proof fn lemma_cached_until_margin(
    provider: ProviderView,
    granted: CredentialsView,
    now: int,
)
    requires
        is_fresh(granted.expires_at, now),
    ensures
        provider.after_refresh(Ok(granted)).state(now) == CacheState::Valid,
        provider.after_refresh(Ok(granted)).action(now) == ActionView::UseCached(granted),
{
}

/// A refresh that fails leaves the provider asking for a refresh whenever
/// it asked for one before.
pub proof fn lemma_failure_retries(provider: ProviderView, failure: ErrorView, now: int)
    ensures
        provider.after_refresh(Err(failure)) == provider,
        provider.after_refresh(Err(failure)).action(now) == provider.action(now),
{
}

/// Validity only ends with time: a set that is valid now was valid at every
/// earlier time, and one that is stale now stays stale.
pub proof fn lemma_state_over_time(provider: ProviderView, earlier: int, later: int)
    requires
        earlier <= later,
    ensures
        provider.state(later) == CacheState::Valid ==> provider.state(earlier)
            == CacheState::Valid,
        provider.state(earlier) == CacheState::Stale ==> provider.state(later)
            == CacheState::Stale,
        provider.state(earlier) == CacheState::Empty <==> provider.state(later)
            == CacheState::Empty,
{
}

/// Callers who take their turns one after the other, starting when the
/// cache is not valid, cause one call in all: the first turn assumes the
/// role, and every caller is handed the set that it was granted, as long
/// as each turn is taken at least the margin before that set expires.
pub proof fn lemma_one_refresh_serves_all(
    provider: ProviderView,
    times: Seq<int>,
    granted: CredentialsView,
)
    requires
        times.len() > 0,
        provider.state(times[0]) != CacheState::Valid,
        forall|i: int| 0 <= i < times.len() ==> is_fresh(granted.expires_at, #[trigger] times[i]),
    ensures
        serve(provider, times, granted).calls == 1,
        serve(provider, times, granted).handed.len() == times.len(),
        forall|i: int|
            0 <= i < times.len() ==> #[trigger] serve(provider, times, granted).handed[i]
                == granted,
        serve(provider, times, granted).provider == provider.after_refresh(Ok(granted)),
    decreases times.len(),
{
    let front = times.drop_last();
    if front.len() == 0 {
        assert(serve(provider, front, granted).provider == provider);
    } else {
        assert forall|i: int| 0 <= i < front.len() implies is_fresh(
            granted.expires_at,
            #[trigger] front[i],
        ) by {
            assert(front[i] == times[i]);
        }
        lemma_one_refresh_serves_all(provider, front, granted);
    }
}

} // verus!
