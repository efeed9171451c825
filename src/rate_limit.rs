use vstd::prelude::*;
use crate::error::AuthError;
use crate::text::str_eq;

verus! {

/// One attempt of `action` by the client `key` at time `at` (seconds).
pub struct Attempt {
    pub key: String,
    pub action: String,
    pub at: u64,
}

pub struct AttemptView {
    pub key: Seq<char>,
    pub action: Seq<char>,
    pub at: u64,
}

impl View for Attempt {
    type V = AttemptView;

    open spec fn view(&self) -> AttemptView {
        AttemptView { key: self.key@, action: self.action@, at: self.at }
    }
}

/// The window in seconds for a window given in minutes, capped at the largest `u64`.
pub open spec fn window_seconds(minutes: u64) -> u64 {
    if minutes as int * 60 <= u64::MAX {
        (minutes * 60) as u64
    } else {
        u64::MAX
    }
}

/// Whether attempt `a` counts against `key` and `action` at `now`: it is theirs and
/// lies less than `window` seconds back (or ahead).
pub open spec fn counts(a: AttemptView, key: Seq<char>, action: Seq<char>, now: u64, window: u64) -> bool {
    a.key == key && a.action == action && a.at as int + window as int > now as int
}

/// How many recorded attempts count against `key` and `action` at `now`.
pub open spec fn recent_count(s: Seq<AttemptView>, key: Seq<char>, action: Seq<char>, now: u64, window: u64) -> nat
    decreases s.len(),
{
    if s.len() == 0 {
        0
    } else {
        recent_count(s.drop_last(), key, action, now, window) + if counts(s.last(), key, action, now, window) {
            1nat
        } else {
            0nat
        }
    }
}

/// Counts attempts per client and action over a sliding window.
pub struct RateLimiter {
    pub attempts: Vec<Attempt>,
}

impl RateLimiter {
    pub open spec fn view(&self) -> Seq<AttemptView> {
        self.attempts@.map_values(|a: Attempt| a@)
    }

    pub fn new() -> (r: RateLimiter)
        ensures
            r.view().len() == 0,
    {
        RateLimiter { attempts: Vec::new() }
    }

    /// Admits the attempt of `action` by `key` at `now` when fewer than `max_attempts`
    /// earlier ones lie within the last `window_minutes`, and records it; otherwise
    /// fails with `RateLimited` and records nothing. Either way the attempts of `key`
    /// and `action` that no longer count are dropped: with one window per action
    /// and a clock that does not run back, they would never count again.
    pub fn check_rate_limit(&mut self, key: &str, action: &str, max_attempts: u64, window_minutes: u64, now: u64) -> (r: Result<(), AuthError>)
        ensures
            recent_count(old(self).view(), key@, action@, now, window_seconds(window_minutes)) >= max_attempts ==> {
                &&& r == Err::<(), AuthError>(AuthError::RateLimited)
                &&& final(self).view() == pruned(old(self).view(), key@, action@, now, window_seconds(window_minutes))
            },
            recent_count(old(self).view(), key@, action@, now, window_seconds(window_minutes)) < max_attempts ==> {
                &&& r == Ok::<(), AuthError>(())
                &&& final(self).view() == pruned(old(self).view(), key@, action@, now, window_seconds(window_minutes)).push(
                    AttemptView { key: key@, action: action@, at: now })
            },
    {
        let window: u64 = if window_minutes <= u64::MAX / 60 {
            window_minutes * 60
        } else {
            u64::MAX
        };
        assert(window == window_seconds(window_minutes));
        let ghost s = self.view();
        let mut kept: Vec<Attempt> = Vec::new();
        let mut count: u64 = 0;
        let mut i: usize = 0;
        while i < self.attempts.len()
            invariant
                s == self.view(),
                i <= s.len(),
                count == recent_count(s.subrange(0, i as int), key@, action@, now, window),
                count <= i,
                kept@.map_values(|a: Attempt| a@) == pruned(s.subrange(0, i as int), key@, action@, now, window),
            decreases s.len() - i,
        {
            let a = &self.attempts[i];
            assert(s.subrange(0, i + 1).drop_last() =~= s.subrange(0, i as int));
            assert(s[i as int] == a@);
            let recent = if a.at as u128 + window as u128 > now as u128 {
                true
            } else {
                false
            };
            let mine = str_eq(a.key.as_str(), key) && str_eq(a.action.as_str(), action);
            if mine && recent {
                count = count + 1;
            }
            if !mine || recent {
                let ghost before = kept@.map_values(|a: Attempt| a@);
                kept.push(Attempt { key: a.key.clone(), action: a.action.clone(), at: a.at });
                assert(kept@.map_values(|a: Attempt| a@) =~= before.push(s[i as int]));
            }
            i = i + 1;
        }
        assert(s.subrange(0, s.len() as int) =~= s);
        if count >= max_attempts {
            self.attempts = kept;
            return Err(AuthError::RateLimited);
        }
        let ghost p = kept@.map_values(|a: Attempt| a@);
        kept.push(Attempt { key: String::from_str(key), action: String::from_str(action), at: now });
        assert(kept@.map_values(|a: Attempt| a@) =~= p.push(AttemptView { key: key@, action: action@, at: now }));
        self.attempts = kept;
        Ok(())
    }
}

/// `s` without the attempts of `key` and `action` that no longer count at `now`.
pub open spec fn pruned(s: Seq<AttemptView>, key: Seq<char>, action: Seq<char>, now: u64, window: u64) -> Seq<AttemptView>
    decreases s.len(),
{
    if s.len() == 0 {
        s
    } else {
        let rest = pruned(s.drop_last(), key, action, now, window);
        let a = s.last();
        if a.key == key && a.action == action && !counts(a, key, action, now, window) {
            rest
        } else {
            rest.push(a)
        }
    }
}

/// Pruning keeps the count of every client and action at the same time and window.
pub proof fn lemma_pruned_count(s: Seq<AttemptView>, key: Seq<char>, action: Seq<char>, now: u64, window: u64, k2: Seq<char>, a2: Seq<char>)
    ensures
        recent_count(pruned(s, key, action, now, window), k2, a2, now, window) == recent_count(s, k2, a2, now, window),
    decreases s.len(),
{
    if s.len() > 0 {
        lemma_pruned_count(s.drop_last(), key, action, now, window, k2, a2);
        let rest = pruned(s.drop_last(), key, action, now, window);
        assert(rest.push(s.last()).drop_last() =~= rest);
    }
}

/// Attempts recorded after `s` that all count at `now` add exactly their number to
/// the count: once as many as the limit are on record within the window, the next
/// attempt of that client is refused.
pub proof fn lemma_recorded_attempts_count(s: Seq<AttemptView>, extra: Seq<AttemptView>, key: Seq<char>, action: Seq<char>, now: u64, window: u64)
    requires
        forall|k: int| 0 <= k < extra.len() ==> counts(#[trigger] extra[k], key, action, now, window),
    ensures
        recent_count(s + extra, key, action, now, window) == recent_count(s, key, action, now, window) + extra.len(),
    decreases extra.len(),
{
    if extra.len() == 0 {
        assert(s + extra =~= s);
    } else {
        let init = extra.drop_last();
        assert forall|k: int| 0 <= k < init.len() implies counts(#[trigger] init[k], key, action, now, window) by {
            assert(init[k] == extra[k]);
        }
        lemma_recorded_attempts_count(s, init, key, action, now, window);
        assert((s + extra).drop_last() =~= s + init);
        assert((s + extra).last() == extra[extra.len() - 1]);
    }
}

} // verus!
