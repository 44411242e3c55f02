//! Managing a Google API access token.
//!
//! An [`AccessToken`] decides when a new token is fetched and what becomes of the outcome; the
//! fetching itself is its user's.

use vstd::prelude::*;

pub use goauth::scopes::Scope;

verus! {

/// The scopes of Google's APIs, `goauth::scopes::Scope`.
#[verifier::external_type_specification]
#[verifier::external_body]
pub struct ExScope(goauth::scopes::Scope);

/// The address of a scope.
pub uninterp spec fn scope_url(scope: Scope) -> Seq<char>;

/// `goauth::scopes::Scope::url` gives the address of a scope, which is a function of the scope
/// alone.
pub assume_specification[ goauth::scopes::Scope::url ](scope: &Scope) -> (url: String)
    ensures
        url@ == scope_url(*scope),
;

/// How many seconds a refresh may take.
pub const REFRESH_TIMEOUT_SECS: u64 = 5;

/// How fetching a new token ended.
#[derive(Debug)]
pub enum RefreshOutcome {
    /// The new token.
    Fetched(String),
    /// No token could be had, with the reason.
    Failed(String),
    /// There was no answer in time.
    TimedOut,
}

/// What is to be done about a refresh.
#[derive(Debug)]
pub enum RefreshAction {
    /// Nothing: the token has not expired, or a refresh is pending.
    Idle,
    /// Fetch a new token for these scopes, within the given number of seconds.
    Fetch { scopes: Vec<String>, timeout_secs: u64 },
}

/// A token, with the state of its refresh.
#[derive(Debug)]
pub struct AccessToken {
    scope: Scope,
    refresh_active: bool,
    token: String,
}

/// The model of an [`AccessToken`].
pub struct AccessTokenView {
    pub scope: Scope,
    /// A refresh is pending.
    pub refresh_active: bool,
    pub token: Seq<char>,
}

impl View for AccessToken {
    type V = AccessTokenView;

    closed spec fn view(&self) -> AccessTokenView {
        AccessTokenView {
            scope: self.scope,
            refresh_active: self.refresh_active,
            token: self.token@,
        }
    }
}

/// `has_expired` can be asked of any token.
pub open spec fn tells_any_expiry<E: Fn(&String) -> bool>(has_expired: &E) -> bool {
    forall|token: &String| #[trigger] call_requires(has_expired, (token,))
}

/// `expired` is what `has_expired` may answer of `token`.
pub open spec fn tells_expiry<E: Fn(&String) -> bool>(
    has_expired: &E,
    token: Seq<char>,
    expired: bool,
) -> bool {
    exists|held: &String|
        held@ == token && #[trigger] call_ensures(has_expired, (held,), expired)
}

impl AccessTokenView {
    /// A call of `refresh` starts fetching a token.
    pub open spec fn starts_refresh(self, has_expired: bool) -> bool {
        has_expired && !self.refresh_active
    }

    /// After a call of `refresh`.
    pub open spec fn refreshed(self, has_expired: bool) -> AccessTokenView {
        AccessTokenView { refresh_active: self.refresh_active || has_expired, ..self }
    }

    /// After a refresh ended, with a new token or without.
    pub open spec fn finished(self, fetched: Option<Seq<char>>) -> AccessTokenView {
        AccessTokenView {
            refresh_active: false,
            token: match fetched {
                Some(token) => token,
                None => self.token,
            },
            ..self
        }
    }

    /// The token as it stands in an HTTP authorization header.
    pub open spec fn header(self) -> Seq<char> {
        "Bearer "@ + self.token
    }
}

impl RefreshOutcome {
    /// The new token, if there is one.
    pub open spec fn fetched(self) -> Option<Seq<char>> {
        match self {
            RefreshOutcome::Fetched(token) => Some(token@),
            RefreshOutcome::Failed(_) => None,
            RefreshOutcome::TimedOut => None,
        }
    }
}

impl AccessToken {
    /// The scopes that a token is fetched for.
    pub fn token_scopes(scope: &Scope) -> (scopes: Vec<String>)
        ensures
            scopes.deep_view() == seq![scope_url(*scope)],
    {
        let mut scopes: Vec<String> = Vec::new();
        scopes.push(scope.url());
        assert(scopes.deep_view() =~= seq![scope_url(*scope)]);
        scopes
    }

    /// The outcome of fetching a token: the token, or an error that tells the reason.
    pub fn get_token(fetched: Result<String, String>) -> (token: Result<String, String>)
        ensures
            match fetched {
                Ok(token_text) => token matches Ok(t) && t@ == token_text@,
                Err(reason) => token matches Err(e) && e@ == "Unable to get token: "@ + reason@,
            },
    {
        match fetched {
            Ok(token) => Ok(token),
            Err(reason) => {
                let mut error = "Unable to get token: ".to_owned();
                error.append(reason.as_str());
                Err(error)
            },
        }
    }

    /// A token for the scope, with no refresh pending, once fetching it has ended.
    pub fn new(scope: Scope, fetched: Result<String, String>) -> (result: Result<Self, String>)
        ensures
            match fetched {
                Ok(token) => result matches Ok(access) && access@ == (AccessTokenView {
                    scope,
                    refresh_active: false,
                    token: token@,
                }),
                Err(reason) => result matches Err(e) && e@ == "Unable to get token: "@ + reason@,
            },
    {
        match Self::get_token(fetched) {
            Ok(token) => Ok(AccessToken { scope, refresh_active: false, token }),
            Err(error) => Err(error),
        }
    }

    /// Decides whether a new token is fetched: where the present one has expired and no refresh
    /// is pending. A refresh is pending from then on, until [`AccessToken::finish_refresh`].
    ///
    /// Whether the token has expired is asked of the one that is held now, in the same step: a
    /// token that was replaced meanwhile counts no more.
    ///
    /// Call this regularly to ensure the access token does not expire.
    pub fn refresh<E: Fn(&String) -> bool>(&mut self, has_expired: &E) -> (action: RefreshAction)
        requires
            tells_any_expiry(has_expired),
        ensures
            exists|expired: bool| #[trigger]
                tells_expiry(has_expired, old(self)@.token, expired) && final(self)@ == old(
                    self,
                )@.refreshed(expired) && final(self)@.refresh_active == (expired || old(
                    self,
                )@.refresh_active) && (action is Fetch <==> expired && !old(self)@.refresh_active)
                    && match action {
                    RefreshAction::Idle => !old(self)@.starts_refresh(expired),
                    RefreshAction::Fetch { scopes, timeout_secs } => {
                        &&& old(self)@.starts_refresh(expired)
                        &&& scopes.deep_view() == seq![scope_url(old(self)@.scope)]
                        &&& timeout_secs == REFRESH_TIMEOUT_SECS
                    },
                },
            final(self)@.token == old(self)@.token,
            final(self)@.scope == old(self)@.scope,
    {
        let expired = has_expired(&self.token);
        assert(tells_expiry(has_expired, self@.token, expired));
        if !expired {
            return RefreshAction::Idle;
        }
        if self.refresh_active {
            return RefreshAction::Idle;
        }
        self.refresh_active = true;
        RefreshAction::Fetch {
            scopes: Self::token_scopes(&self.scope),
            timeout_secs: REFRESH_TIMEOUT_SECS,
        }
    }

    /// Ends a refresh: a new token takes the place of the present one, which otherwise stays. No
    /// refresh is pending from then on.
    pub fn finish_refresh(&mut self, outcome: RefreshOutcome)
        ensures
            final(self)@ == old(self)@.finished(outcome.fetched()),
            match outcome {
                RefreshOutcome::Fetched(token) => final(self)@.token == token@,
                RefreshOutcome::Failed(_) => final(self)@.token == old(self)@.token,
                RefreshOutcome::TimedOut => final(self)@.token == old(self)@.token,
            },
            !final(self)@.refresh_active,
            final(self)@.scope == old(self)@.scope,
    {
        match outcome {
            RefreshOutcome::Fetched(token) => {
                self.token = token;
            },
            RefreshOutcome::Failed(_) => {},
            RefreshOutcome::TimedOut => {},
        }
        self.refresh_active = false;
    }

    /// The token as it stands in an HTTP authorization header.
    pub fn get(&self) -> (header: String)
        ensures
            header@ == self@.header(),
            header@ == "Bearer "@ + self@.token,
    {
        let mut header = "Bearer ".to_owned();
        header.append(self.token.as_str());
        header
    }
}

/// What can happen to an [`AccessToken`].
pub enum TokenEvent {
    /// A call of `refresh`, with whether the token has expired.
    Refresh(bool),
    /// A refresh ended, with a new token or without.
    Finish(Option<Seq<char>>),
}

impl AccessTokenView {
    /// After one event.
    pub open spec fn after(self, event: TokenEvent) -> AccessTokenView {
        match event {
            TokenEvent::Refresh(has_expired) => self.refreshed(has_expired),
            TokenEvent::Finish(fetched) => self.finished(fetched),
        }
    }

    /// After a history of events.
    pub open spec fn after_all(self, events: Seq<TokenEvent>) -> AccessTokenView
        decreases events.len(),
    {
        if events.len() == 0 {
            self
        } else {
            self.after_all(events.drop_last()).after(events.last())
        }
    }

    /// Only a refresh that is pending ends.
    pub open spec fn ends_only_pending(self, events: Seq<TokenEvent>) -> bool
        decreases events.len(),
    {
        events.len() > 0 ==> {
            &&& self.ends_only_pending(events.drop_last())
            &&& events.last() is Finish ==> self.after_all(events.drop_last()).refresh_active
        }
    }

    /// How many fetches the history started.
    pub open spec fn started(self, events: Seq<TokenEvent>) -> nat
        decreases events.len(),
    {
        if events.len() == 0 {
            0
        } else {
            let earlier = self.started(events.drop_last());
            match events.last() {
                TokenEvent::Refresh(has_expired) => if self.after_all(
                    events.drop_last(),
                ).starts_refresh(has_expired) {
                    earlier + 1
                } else {
                    earlier
                },
                TokenEvent::Finish(_) => earlier,
            }
        }
    }
}

/// How many refreshes ended in the history.
pub open spec fn ended(events: Seq<TokenEvent>) -> nat
    decreases events.len(),
{
    if events.len() == 0 {
        0
    } else if events.last() is Finish {
        ended(events.drop_last()) + 1
    } else {
        ended(events.drop_last())
    }
}

/// Whatever happens to a token with no refresh pending, no two fetches are under way at a time:
/// at most one was started that did not end, and it is the pending refresh.
pub proof fn at_most_one_fetch_under_way(initial: AccessTokenView, events: Seq<TokenEvent>)
    requires
        !initial.refresh_active,
        initial.ends_only_pending(events),
    ensures
        initial.started(events) == ended(events) + if initial.after_all(events).refresh_active {
            1nat
        } else {
            0nat
        },
    decreases events.len(),
{
    if events.len() > 0 {
        at_most_one_fetch_under_way(initial, events.drop_last());
    }
}

/// Of the calls of `refresh` that come while no refresh ends, exactly one starts a fetch, if the
/// token had expired for any of them.
pub proof fn one_of_racing_calls_fetches(initial: AccessTokenView, events: Seq<TokenEvent>)
    requires
        !initial.refresh_active,
        forall|i: int| 0 <= i < events.len() ==> (#[trigger] events[i]) is Refresh,
    ensures
        initial.started(events) == if exists|i: int|
            0 <= i < events.len() && (#[trigger] events[i]) == TokenEvent::Refresh(true) {
            1nat
        } else {
            0nat
        },
        initial.after_all(events).refresh_active == exists|i: int|
            0 <= i < events.len() && (#[trigger] events[i]) == TokenEvent::Refresh(true),
    decreases events.len(),
{
    if events.len() > 0 {
        let earlier = events.drop_last();
        assert forall|i: int| 0 <= i < earlier.len() implies (#[trigger] earlier[i]) is Refresh by {
            assert(earlier[i] == events[i]);
        }
        one_of_racing_calls_fetches(initial, earlier);
        assert(events[events.len() - 1] is Refresh);
        if exists|i: int|
            0 <= i < earlier.len() && (#[trigger] earlier[i]) == TokenEvent::Refresh(true) {
            let i = choose|i: int|
                0 <= i < earlier.len() && (#[trigger] earlier[i]) == TokenEvent::Refresh(true);
            assert(events[i] == TokenEvent::Refresh(true));
        } else if events.last() != TokenEvent::Refresh(true) {
            assert forall|i: int| 0 <= i < events.len() implies (#[trigger] events[i])
                != TokenEvent::Refresh(true) by {
                if i < earlier.len() {
                    assert(earlier[i] == events[i]);
                }
            }
        }
    }
}

/// Each call of `refresh` in the history got to know the expiry of the token that was held then.
pub open spec fn expiry_is_of_held_token(
    initial: AccessTokenView,
    events: Seq<TokenEvent>,
    expired: spec_fn(Seq<char>) -> bool,
) -> bool
    decreases events.len(),
{
    events.len() > 0 ==> {
        &&& expiry_is_of_held_token(initial, events.drop_last(), expired)
        &&& events.last() matches TokenEvent::Refresh(has_expired) ==> has_expired == expired(
            initial.after_all(events.drop_last()).token,
        )
    }
}

/// Once a refresh gave a token that has not expired, the calls of `refresh` behind it start no
/// fetch, though the token that was replaced had expired.
pub proof fn replaced_token_starts_no_fetch(
    state: AccessTokenView,
    fetched: Seq<char>,
    expired: spec_fn(Seq<char>) -> bool,
    events: Seq<TokenEvent>,
)
    requires
        !expired(fetched),
        forall|i: int| 0 <= i < events.len() ==> (#[trigger] events[i]) is Refresh,
        expiry_is_of_held_token(state.finished(Some(fetched)), events, expired),
    ensures
        state.finished(Some(fetched)).started(events) == 0,
        state.finished(Some(fetched)).after_all(events) == state.finished(Some(fetched)),
    decreases events.len(),
{
    if events.len() > 0 {
        let earlier = events.drop_last();
        assert forall|i: int| 0 <= i < earlier.len() implies (#[trigger] earlier[i]) is Refresh by {
            assert(earlier[i] == events[i]);
        }
        replaced_token_starts_no_fetch(state, fetched, expired, earlier);
        assert(events[events.len() - 1] is Refresh);
    }
}

/// A history in which no token was fetched leaves the token and its header as they were.
pub proof fn token_stays_without_a_fetched_one(initial: AccessTokenView, events: Seq<TokenEvent>)
    requires
        forall|i: int|
            0 <= i < events.len() ==> !((#[trigger] events[i]) matches TokenEvent::Finish(Some(_))),
    ensures
        initial.after_all(events).token == initial.token,
        initial.after_all(events).header() == initial.header(),
    decreases events.len(),
{
    if events.len() > 0 {
        let earlier = events.drop_last();
        assert forall|i: int| 0 <= i < earlier.len() implies !((
        #[trigger] earlier[i]) matches TokenEvent::Finish(Some(_))) by {
            assert(earlier[i] == events[i]);
        }
        token_stays_without_a_fetched_one(initial, earlier);
        assert(!(events[events.len() - 1] matches TokenEvent::Finish(Some(_))));
    }
}

/// The scope never changes.
pub proof fn scope_stays(initial: AccessTokenView, events: Seq<TokenEvent>)
    ensures
        initial.after_all(events).scope == initial.scope,
    decreases events.len(),
{
    if events.len() > 0 {
        scope_stays(initial, events.drop_last());
    }
}

/// However a refresh ends, the next call on an expired token starts another; one that failed or
/// timed out leaves the token, and one that gave a token puts it into the header.
pub proof fn ended_refresh_can_be_repeated(state: AccessTokenView, fetched: Option<Seq<char>>)
    ensures
        state.finished(fetched).starts_refresh(true),
        fetched is None ==> state.finished(fetched).token == state.token,
        fetched matches Some(token) ==> state.finished(fetched).header() == "Bearer "@ + token,
{
}

/// What a refresh ended with decides the token: one that was fetched takes the place of the old
/// one, whatever it is, and without one the old one stays. No refresh is pending then, and the
/// header holds the token.
pub proof fn outcome_decides_the_token(state: AccessTokenView, outcome: RefreshOutcome)
    ensures
        outcome matches RefreshOutcome::Fetched(token) ==> state.finished(outcome.fetched()).token
            == token@ && state.finished(outcome.fetched()).header() == "Bearer "@ + token@,
        outcome is Failed || outcome is TimedOut ==> state.finished(outcome.fetched()).token
            == state.token && state.finished(outcome.fetched()).header() == "Bearer "@
            + state.token,
        !state.finished(outcome.fetched()).refresh_active,
        state.finished(outcome.fetched()).scope == state.scope,
{
}

/// A call of `refresh` starts a fetch exactly where the token has expired and no refresh is
/// pending, and it changes nothing but that a refresh is pending.
pub proof fn expired_token_starts_a_fetch(state: AccessTokenView, has_expired: bool)
    ensures
        state.starts_refresh(has_expired) <==> has_expired && !state.refresh_active,
        state.starts_refresh(has_expired) ==> state.refreshed(has_expired).refresh_active,
        !state.starts_refresh(has_expired) ==> state.refreshed(has_expired) == state,
        state.refreshed(has_expired).token == state.token,
        state.refreshed(has_expired).scope == state.scope,
{
}

/// What is told of a token's expiry is what the function answered of a token with that text.
pub proof fn expiry_is_what_was_answered<E: Fn(&String) -> bool>(
    has_expired: &E,
    token: Seq<char>,
    expired: bool,
)
    ensures
        tells_expiry(has_expired, token, expired) <==> exists|held: &String|
            held@ == token && #[trigger] call_ensures(has_expired, (held,), expired),
{
}

/// A refresh may take five seconds.
pub proof fn refresh_may_take_five_seconds()
    ensures
        REFRESH_TIMEOUT_SECS == 5,
{
}

} // verus!
