use std::collections::HashMap;
use vstd::prelude::*;
use vstd::string::StringExecFns;

use crate::config::{limit_in_table, AppConfig, LimitDetails};
use crate::health::ModelStatusInfo;
use crate::text::same_text;

verus! {

broadcast use vstd::std_specs::hash::group_hash_axioms;

/// The highest subscription level; operators always hold it.
pub const MAX_LEVEL: i32 = 3;

/// An account as the storage engine keeps it. Times are seconds since the Unix epoch;
/// the temperature override is in thousandths.
#[derive(Clone, Debug)]
pub struct User {
    pub user_id: i64,
    pub username: Option<String>,
    pub subscription_level: i32,
    pub subscription_end: Option<i64>,
    pub is_blocked: bool,
    pub is_verified: bool,
    pub has_rewarded_bonus: bool,
    pub last_used_model: Option<String>,
    pub last_used_image_model: Option<String>,
    pub user_instruction: Option<String>,
    pub user_temperature: Option<u32>,
    pub created_at: i64,
}

/// How long, in seconds, a cached account is served before it is read again.
pub const USER_CACHE_TTL: i64 = 300;

/// How many accounts the cache holds at most.
pub const USER_CACHE_CAPACITY: usize = 1000;

/// A cached account and when it was cached.
struct CachedUser {
    user: User,
    stored_at: i64,
}

/// The short-lived shadow of account facts and model availability. Accounts expire after
/// `USER_CACHE_TTL` seconds; when the cache is full, a new account replaces all others.
pub struct Cache {
    user_details: HashMap<i64, CachedUser>,
    model_statuses: Vec<ModelStatusInfo>,
    last_report: Option<String>,
}

/// Whether a model is usable by the last known statuses: no status recorded for it says otherwise than `OK`.
pub open spec fn model_available(statuses: Seq<(Seq<char>, Seq<char>)>, model: Seq<char>) -> bool {
    forall|i: int| 0 <= i < statuses.len() && (#[trigger] statuses[i]).0 == model ==> statuses[i].1 == "OK"@
}

/// The statuses after a model is marked failed: each of its entries says `FAILED`, and one is added where it had none.
pub open spec fn marked_failed(statuses: Seq<(Seq<char>, Seq<char>)>, model: Seq<char>) -> Seq<(Seq<char>, Seq<char>)> {
    let marked = statuses.map_values(|e: (Seq<char>, Seq<char>)| if e.0 == model { (e.0, "FAILED"@) } else { e });
    if exists|i: int| 0 <= i < statuses.len() && (#[trigger] statuses[i]).0 == model {
        marked
    } else {
        marked.push((model, "FAILED"@))
    }
}

impl Cache {
    /// The cached accounts, by user id.
    pub closed spec fn users(&self) -> Map<i64, User> {
        Map::new(|k: i64| self.user_details@.contains_key(k), |k: i64| self.user_details@[k].user)
    }

    /// When each cached account was cached.
    pub closed spec fn stored_at(&self) -> Map<i64, i64> {
        Map::new(|k: i64| self.user_details@.contains_key(k), |k: i64| self.user_details@[k].stored_at)
    }

    /// Whether the account of a user is cached and still fresh at `now`.
    pub open spec fn serves(&self, user_id: i64, now: i64) -> bool {
        self.users().contains_key(user_id) && now - self.stored_at()[user_id] < USER_CACHE_TTL
    }

    proof fn lemma_views(&self)
        ensures
            self.users().dom() == self.user_details@.dom(),
            self.stored_at().dom() == self.user_details@.dom(),
            self.users().dom().finite(),
    {
        assert(self.users().dom() =~= self.user_details@.dom());
        assert(self.stored_at().dom() =~= self.user_details@.dom());
    }

    /// The cached model statuses, as (model, status) pairs.
    pub closed spec fn statuses(&self) -> Seq<(Seq<char>, Seq<char>)> {
        self.model_statuses@.map_values(|s: ModelStatusInfo| s@)
    }

    /// The last rendered availability report.
    pub closed spec fn report(&self) -> Option<Seq<char>> {
        match self.last_report {
            Some(r) => Some(r@),
            None => None,
        }
    }

    pub fn new() -> (r: Cache)
        ensures
            r.users() == Map::<i64, User>::empty(),
            r.stored_at() == Map::<i64, i64>::empty(),
            r.statuses() == Seq::<(Seq<char>, Seq<char>)>::empty(),
            r.report() == None::<Seq<char>>,
    {
        let r = Cache { user_details: HashMap::new(), model_statuses: Vec::new(), last_report: None };
        assert(r.statuses() =~= Seq::<(Seq<char>, Seq<char>)>::empty());
        assert(r.users() =~= Map::<i64, User>::empty());
        assert(r.stored_at() =~= Map::<i64, i64>::empty());
        r
    }

    /// The cached account of a user, where it is still fresh at `now`.
    pub fn get_user_details(&self, user_id: i64, now: i64) -> (r: Option<&User>)
        ensures
            match r {
                Some(u) => self.serves(user_id, now) && *u == self.users()[user_id],
                None => !self.serves(user_id, now),
            },
    {
        match self.user_details.get(&user_id) {
            Some(c) => {
                if (now as i128) - (c.stored_at as i128) < USER_CACHE_TTL as i128 {
                    Some(&c.user)
                } else {
                    None
                }
            },
            None => None,
        }
    }

    /// Caches the account of a user as read at `now`; a cache that is full drops all other accounts first.
    pub fn set_user_details(&mut self, user_id: i64, details: User, now: i64)
        ensures
            ({
                let kept = if old(self).users().len() >= USER_CACHE_CAPACITY && !old(self).users().contains_key(
                    user_id,
                ) {
                    Map::<i64, User>::empty()
                } else {
                    old(self).users()
                };
                final(self).users() == kept.insert(user_id, details)
            }),
            final(self).stored_at()[user_id] == now,
            forall|k: i64| k != user_id && #[trigger] final(self).users().contains_key(k) ==> final(self).stored_at()[k]
                == old(self).stored_at()[k],
            old(self).users().len() <= USER_CACHE_CAPACITY ==> final(self).users().len() <= USER_CACHE_CAPACITY,
            final(self).statuses() == old(self).statuses(),
            final(self).report() == old(self).report(),
    {
        proof {
            self.lemma_views();
        }
        let full = self.user_details.len() >= USER_CACHE_CAPACITY && !self.user_details.contains_key(&user_id);
        if full {
            self.user_details.clear();
        }
        self.user_details.insert(user_id, CachedUser { user: details, stored_at: now });
        proof {
            self.lemma_views();
            let kept_users = if old(self).users().len() >= USER_CACHE_CAPACITY && !old(self).users().contains_key(user_id) {
                Map::<i64, User>::empty()
            } else {
                old(self).users()
            };
            assert(self.users() =~= kept_users.insert(user_id, details));
        }
    }

    pub fn invalidate_user_cache(&mut self, user_id: i64)
        ensures
            final(self).users() == old(self).users().remove(user_id),
            forall|k: i64| #[trigger] final(self).users().contains_key(k) ==> final(self).stored_at()[k]
                == old(self).stored_at()[k],
            final(self).statuses() == old(self).statuses(),
            final(self).report() == old(self).report(),
    {
        self.user_details.remove(&user_id);
        assert(self.user_details@ =~= old(self).user_details@.remove(user_id));
        assert(self.users() =~= old(self).users().remove(user_id));
    }

    /// Replaces the model statuses and the report by those of a newer sweep.
    pub fn set_model_statuses(&mut self, statuses: Vec<ModelStatusInfo>, report: String)
        ensures
            final(self).users() == old(self).users(),
            final(self).statuses() == statuses@.map_values(|s: ModelStatusInfo| s@),
            final(self).report() == Some(report@),
    {
        self.model_statuses = statuses;
        self.last_report = Some(report);
    }

    /// The last rendered availability report, if any.
    pub fn last_report(&self) -> (r: Option<&String>)
        ensures
            match r {
                Some(s) => self.report() == Some(s@),
                None => self.report() == None::<Seq<char>>,
            },
    {
        self.last_report.as_ref()
    }
}

/// Whether the model is usable by the cached statuses. This is advisory: nothing refuses a call on it.
pub fn is_model_available(model_name: &str, app_cache: &Cache) -> (r: bool)
    ensures
        r == model_available(app_cache.statuses(), model_name@),
{
    let ghost st = app_cache.statuses();
    let mut i: usize = 0;
    while i < app_cache.model_statuses.len()
        invariant
            i <= app_cache.model_statuses@.len(),
            st == app_cache.statuses(),
            st.len() == app_cache.model_statuses@.len(),
            forall|j: int| 0 <= j < i && (#[trigger] st[j]).0 == model_name@ ==> st[j].1 == "OK"@,
        decreases app_cache.model_statuses@.len() - i,
    {
        let e = &app_cache.model_statuses[i];
        assert(st[i as int] == e@);
        if same_text(e.model.as_str(), model_name) && !same_text(e.status.as_str(), "OK") {
            return false;
        }
        i += 1;
    }
    true
}

/// Whether every participant of enhanced mode and its arbiter are usable by the cached statuses.
pub fn are_max_mode_models_available(config: &AppConfig, app_cache: &Cache) -> (r: bool)
    ensures
        r == (model_available(app_cache.statuses(), config.max_mode_arbiter@) && forall|i: int|
            0 <= i < config.max_mode_participants@.len() ==> model_available(
                app_cache.statuses(),
                (#[trigger] config.max_mode_participants@[i])@,
            )),
{
    let mut i: usize = 0;
    while i < config.max_mode_participants.len()
        invariant
            i <= config.max_mode_participants@.len(),
            forall|j: int|
                0 <= j < i ==> model_available(
                    app_cache.statuses(),
                    (#[trigger] config.max_mode_participants@[j])@,
                ),
        decreases config.max_mode_participants@.len() - i,
    {
        if !is_model_available(config.max_mode_participants[i].as_str(), app_cache) {
            return false;
        }
        i += 1;
    }
    is_model_available(config.max_mode_arbiter.as_str(), app_cache)
}

/// Marks a model failed in the cached statuses, so that availability checks report it down.
pub fn set_model_failed_in_cache(model_name: &str, app_cache: &mut Cache)
    ensures
        final(app_cache).users() == old(app_cache).users(),
        final(app_cache).report() == old(app_cache).report(),
        final(app_cache).statuses() == marked_failed(old(app_cache).statuses(), model_name@),
{
    let ghost st = old(app_cache).statuses();
    let ghost m = model_name@;
    let mut out: Vec<ModelStatusInfo> = Vec::new();
    let mut found = false;
    let mut i: usize = 0;
    while i < app_cache.model_statuses.len()
        invariant
            i <= app_cache.model_statuses@.len(),
            st == app_cache.statuses(),
            m == model_name@,
            st.len() == app_cache.model_statuses@.len(),
            out@.len() == i,
            forall|j: int| 0 <= j < i ==> (#[trigger] out@[j])@ == (if st[j].0 == m { (st[j].0, "FAILED"@) } else { st[j] }),
            found == exists|j: int| 0 <= j < i && (#[trigger] st[j]).0 == m,
        decreases app_cache.model_statuses@.len() - i,
    {
        let e = &app_cache.model_statuses[i];
        assert(st[i as int] == e@);
        let ghost prev = out@;
        if same_text(e.model.as_str(), model_name) {
            out.push(ModelStatusInfo { model: e.model.clone(), status: String::from_str("FAILED") });
            found = true;
            assert(st[i as int].0 == m);
        } else {
            out.push(ModelStatusInfo { model: e.model.clone(), status: e.status.clone() });
        }
        assert(forall|j: int| 0 <= j < i ==> out@[j] == prev[j]);
        assert(out@[i as int]@ == (if st[i as int].0 == m { (st[i as int].0, "FAILED"@) } else { st[i as int] }));
        i += 1;
    }
    let ghost marked = st.map_values(|e: (Seq<char>, Seq<char>)| if e.0 == m { (e.0, "FAILED"@) } else { e });
    if !found {
        out.push(ModelStatusInfo { model: String::from_str(model_name), status: String::from_str("FAILED") });
        assert(out@.map_values(|s: ModelStatusInfo| s@) =~= marked.push((m, "FAILED"@)));
    } else {
        assert(out@.map_values(|s: ModelStatusInfo| s@) =~= marked);
    }
    app_cache.model_statuses = out;
}

/// The subscription level an account read yields, and whether that read found an expired tier that must be
/// written back as the free one.
#[derive(Clone, Copy, Debug, PartialEq, Eq, Structural)]
pub struct LevelDecision {
    pub level: i32,
    pub expired: bool,
}

/// The level of a user at time `now`: operators hold the highest; an unknown user is free; a paid tier that
/// has no end date, or ended before `now`, falls to free and is to be written back so.
pub open spec fn level_at(is_admin: bool, user: Option<User>, now: int) -> LevelDecision {
    if is_admin {
        LevelDecision { level: MAX_LEVEL, expired: false }
    } else {
        match user {
            None => LevelDecision { level: 0, expired: false },
            Some(u) => if u.subscription_level > 0 {
                match u.subscription_end {
                    Some(end) => if end < now {
                        LevelDecision { level: 0, expired: true }
                    } else {
                        LevelDecision { level: u.subscription_level, expired: false }
                    },
                    None => LevelDecision { level: 0, expired: true },
                }
            } else {
                LevelDecision { level: u.subscription_level, expired: false }
            },
        }
    }
}

/// The account as it reads after an expired tier is written back: free, ending at `now`.
pub open spec fn normalized_account(u: User, now: i64) -> User {
    User { subscription_level: 0, subscription_end: Some(now), ..u }
}

/// Decides the level of a user from the account as read at time `now`.
pub fn resolve_level(is_admin: bool, user: Option<&User>, now: i64) -> (r: LevelDecision)
    ensures
        r == level_at(is_admin, match user { Some(u) => Some(*u), None => None }, now as int),
{
    if is_admin {
        return LevelDecision { level: MAX_LEVEL, expired: false };
    }
    match user {
        None => LevelDecision { level: 0, expired: false },
        Some(u) => {
            if u.subscription_level > 0 {
                match u.subscription_end {
                    Some(end) => {
                        if end < now {
                            LevelDecision { level: 0, expired: true }
                        } else {
                            LevelDecision { level: u.subscription_level, expired: false }
                        }
                    },
                    None => LevelDecision { level: 0, expired: true },
                }
            } else {
                LevelDecision { level: u.subscription_level, expired: false }
            }
        },
    }
}

/// Writes the free tier into an account whose paid tier has ended, as the storage engine does.
pub fn normalize_expired(user: &mut User, now: i64)
    ensures
        *final(user) == normalized_account(*old(user), now),
{
    user.subscription_level = 0;
    user.subscription_end = Some(now);
}

/// A paid tier read after its end, or without one, yields the free level and asks for the write-back; once
/// written back, every later read, at any time, yields the free level again and asks for nothing.
pub proof fn lemma_expired_tier_normalizes(u: User, now: i64, later: i64)
    requires
        u.subscription_level > 0,
        match u.subscription_end {
            Some(end) => end < now,
            None => true,
        },
        now <= later,
    ensures
        level_at(false, Some(u), now as int) == (LevelDecision { level: 0, expired: true }),
        level_at(false, Some(normalized_account(u, now)), later as int) == (LevelDecision {
            level: 0,
            expired: false,
        }),
{
}

/// The two kinds of request a user's daily quota counts.
#[derive(Clone, Copy, Debug, PartialEq, Eq, Structural)]
pub enum RequestKind {
    Normal,
    Enhanced,
}

/// The limits of a user: unlimited for operators; the reward limit, and no enhanced requests, for a free
/// user who was granted the bonus; otherwise those the table gives the level.
pub open spec fn limits_of(
    is_admin: bool,
    level: i32,
    bonus: bool,
    table: Seq<(i32, LimitDetails)>,
    reward_limit: i32,
) -> LimitDetails {
    if is_admin {
        LimitDetails { daily: i32::MAX, max_mode: i32::MAX }
    } else if level == 0 && bonus {
        LimitDetails { daily: reward_limit, max_mode: 0 }
    } else {
        limit_in_table(table, level)
    }
}

/// The limits of a user of the given level, the account as read (if any) telling whether the bonus was granted.
pub fn get_user_limits(config: &AppConfig, user_id: i64, level: i32, user: Option<&User>) -> (r: LimitDetails)
    ensures
        r == limits_of(
            config.admin_spec(user_id),
            level,
            user matches Some(u) && u.has_rewarded_bonus,
            config.limits@,
            config.reward_limit,
        ),
{
    if config.is_admin(user_id) {
        return LimitDetails { daily: i32::MAX, max_mode: i32::MAX };
    }
    if level == 0 {
        if let Some(u) = user {
            if u.has_rewarded_bonus {
                return LimitDetails { daily: config.reward_limit, max_mode: 0 };
            }
        }
    }
    config.limits_for_level(level)
}

pub open spec fn limit_for_kind(limits: LimitDetails, kind: RequestKind) -> int {
    match kind {
        RequestKind::Normal => limits.daily as int,
        RequestKind::Enhanced => limits.max_mode as int,
    }
}

/// A request is allowed while fewer than the limit were counted today.
pub open spec fn allowed(used_today: int, limits: LimitDetails, kind: RequestKind) -> bool {
    used_today < limit_for_kind(limits, kind)
}

/// Today's count after a request: one more only where it was allowed and its call succeeded.
pub open spec fn count_after(used_today: int, limits: LimitDetails, kind: RequestKind, succeeded: bool) -> int {
    if allowed(used_today, limits, kind) && succeeded {
        used_today + 1
    } else {
        used_today
    }
}

/// Whether a request of this kind may be made, given today's count of such requests.
pub fn authorize(limits: LimitDetails, kind: RequestKind, used_today: i64) -> (r: bool)
    ensures
        r == allowed(used_today as int, limits, kind),
{
    match kind {
        RequestKind::Normal => used_today < limits.daily as i64,
        RequestKind::Enhanced => used_today < limits.max_mode as i64,
    }
}

/// Today's count after a request, recorded by the caller once the call it allowed has succeeded.
pub fn usage_after(limits: LimitDetails, kind: RequestKind, used_today: i64, succeeded: bool) -> (r: i64)
    ensures
        r as int == count_after(used_today as int, limits, kind, succeeded),
{
    if authorize(limits, kind, used_today) && succeeded {
        used_today + 1
    } else {
        used_today
    }
}

/// Today's count after `n` requests of one kind whose calls all succeed, starting from none.
pub open spec fn count_after_requests(limits: LimitDetails, kind: RequestKind, n: nat) -> int
    decreases n,
{
    if n == 0 {
        0
    } else {
        count_after(count_after_requests(limits, kind, (n - 1) as nat), limits, kind, true)
    }
}

/// With a daily limit L, the first L requests of a day are allowed and counted, the next one is refused,
/// and a refused request never changes the count, whether or not a call was attempted.
pub proof fn lemma_daily_quota(limits: LimitDetails, kind: RequestKind, n: nat, succeeded: bool)
    requires
        limit_for_kind(limits, kind) >= 0,
    ensures
        n <= limit_for_kind(limits, kind) ==> count_after_requests(limits, kind, n) == n,
        n < limit_for_kind(limits, kind) ==> allowed(count_after_requests(limits, kind, n), limits, kind),
        n >= limit_for_kind(limits, kind) ==> count_after_requests(limits, kind, n) == limit_for_kind(limits, kind),
        n >= limit_for_kind(limits, kind) ==> !allowed(count_after_requests(limits, kind, n), limits, kind),
        !allowed(count_after_requests(limits, kind, n), limits, kind) ==> count_after(
            count_after_requests(limits, kind, n),
            limits,
            kind,
            succeeded,
        ) == count_after_requests(limits, kind, n),
    decreases n,
{
    if n > 0 {
        lemma_daily_quota(limits, kind, (n - 1) as nat, succeeded);
    }
}

} // verus!
