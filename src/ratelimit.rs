use vstd::prelude::*;
use std::collections::HashMap;

verus! {

broadcast use vstd::std_specs::hash::group_hash_axioms;

/// What a bucket's counting is partitioned by.
#[derive(Clone, Copy, Debug, PartialEq, Eq, Structural)]
pub enum LimitScope {
    Channel,
    User,
    Guild,
    Global,
}

/// A bucket's settings, as plain configuration data.
#[derive(Clone, Copy, Debug, PartialEq, Eq, Structural)]
pub struct BucketConfig {
    /// Invocations allowed in one window.
    pub limit: u64,
    /// Length of a window, in seconds.
    pub time_span: u64,
    /// When set, a caller over the limit may be made to wait instead of being
    /// rejected.
    pub delay: Option<u64>,
    /// How many callers of one scope key may wait at once.
    pub await_limit: u64,
    pub scope: LimitScope,
}

/// The state of one scope key of a bucket.
#[derive(Clone, Copy, Debug, PartialEq, Eq, Structural)]
pub struct KeyState {
    pub count: u64,
    pub window_start: u64,
    /// Callers that are waiting now.
    pub delayed: u64,
    /// A caller of this window was already told that it is delayed.
    pub delay_notified: bool,
    /// A caller of this window was already told that it is rejected.
    pub reject_notified: bool,
}

/// The answer to one attempt to take from a bucket.
#[derive(Clone, Copy, Debug, PartialEq, Eq, Structural)]
pub enum Acquire {
    Allowed,
    /// The caller may go on after `wait` seconds; `notify` is set for the
    /// first delayed caller of a window.
    Delayed { wait: u64, notify: bool },
    /// The caller may try again after `retry_after` seconds; `first_try` is
    /// set for the first rejection of a window.
    Rejected { retry_after: u64, first_try: bool },
}

pub open spec fn elapsed(s: KeyState, now: u64) -> int {
    if now >= s.window_start {
        now - s.window_start
    } else {
        0
    }
}

/// The state of a key at time `now`: a new window when the key is new or its
/// window has run out; callers still waiting stay counted.
pub open spec fn current_window(cfg: BucketConfig, s: Option<KeyState>, now: u64) -> KeyState {
    match s {
        None => KeyState {
            count: 0,
            window_start: now,
            delayed: 0,
            delay_notified: false,
            reject_notified: false,
        },
        Some(s) => if elapsed(s, now) >= cfg.time_span {
            KeyState {
                count: 0,
                window_start: now,
                delayed: s.delayed,
                delay_notified: false,
                reject_notified: false,
            }
        } else {
            s
        },
    }
}

/// One attempt at time `now`: the key's next state and the answer.
pub open spec fn acquire_spec(cfg: BucketConfig, s: Option<KeyState>, now: u64) -> (KeyState, Acquire) {
    let w = current_window(cfg, s, now);
    let remaining = (cfg.time_span - elapsed(w, now)) as u64;
    if w.count < cfg.limit {
        (
            KeyState {
                count: (w.count + 1) as u64,
                window_start: w.window_start,
                delayed: w.delayed,
                delay_notified: w.delay_notified,
                reject_notified: w.reject_notified,
            },
            Acquire::Allowed,
        )
    } else if cfg.delay.is_some() && w.delayed < cfg.await_limit {
        (
            KeyState {
                count: w.count,
                window_start: w.window_start,
                delayed: (w.delayed + 1) as u64,
                delay_notified: true,
                reject_notified: w.reject_notified,
            },
            Acquire::Delayed { wait: remaining, notify: !w.delay_notified },
        )
    } else {
        (
            KeyState {
                count: w.count,
                window_start: w.window_start,
                delayed: w.delayed,
                delay_notified: w.delay_notified,
                reject_notified: true,
            },
            Acquire::Rejected { retry_after: remaining, first_try: !w.reject_notified },
        )
    }
}

/// A key's count stays within the limit, and its waiting callers within the
/// await limit.
pub open spec fn key_bounded(cfg: BucketConfig, s: KeyState) -> bool {
    s.count <= cfg.limit && s.delayed <= cfg.await_limit
}

/// An attempt keeps a key within its bounds.
pub proof fn lemma_acquire_keeps_bounds(cfg: BucketConfig, s: Option<KeyState>, now: u64)
    requires
        match s {
            Some(s) => key_bounded(cfg, s),
            None => true,
        },
    ensures
        key_bounded(cfg, acquire_spec(cfg, s, now).0),
{
}

/// Without a delay, an attempt on a key whose window is still open and whose
/// count has reached the limit is rejected.
pub proof fn lemma_full_window_rejects(cfg: BucketConfig, s: KeyState, now: u64)
    requires
        cfg.delay is None,
        s.count >= cfg.limit,
        now >= s.window_start,
        now - s.window_start < cfg.time_span,
    ensures
        acquire_spec(cfg, Some(s), now).1 == (Acquire::Rejected {
            retry_after: (cfg.time_span - (now - s.window_start)) as u64,
            first_try: !s.reject_notified,
        }),
{
}

/// Once a whole time span has passed since the window opened, the count starts
/// again and the attempt is allowed.
pub proof fn lemma_window_resets_after_time_span(cfg: BucketConfig, s: KeyState, now: u64)
    requires
        cfg.limit > 0,
        now >= s.window_start,
        now - s.window_start >= cfg.time_span,
    ensures
        acquire_spec(cfg, Some(s), now).1 == Acquire::Allowed,
        acquire_spec(cfg, Some(s), now).0.count == 1,
        acquire_spec(cfg, Some(s), now).0.window_start == now,
{
}

/// With a delay configured, an attempt over the limit waits for the rest of
/// the window while fewer than the await limit wait, and is rejected at once
/// when that many already wait.
pub proof fn lemma_delay_up_to_await_limit(cfg: BucketConfig, s: KeyState, now: u64)
    requires
        cfg.delay is Some,
        s.count >= cfg.limit,
        now >= s.window_start,
        now - s.window_start < cfg.time_span,
    ensures
        s.delayed < cfg.await_limit ==> acquire_spec(cfg, Some(s), now).1 == (Acquire::Delayed {
            wait: (cfg.time_span - (now - s.window_start)) as u64,
            notify: !s.delay_notified,
        }),
        s.delayed < cfg.await_limit ==> acquire_spec(cfg, Some(s), now).0.delayed == s.delayed + 1,
        s.delayed >= cfg.await_limit ==> acquire_spec(cfg, Some(s), now).1 is Rejected,
{
}

/// A named bucket with the state of each scope key it has seen.
pub struct Bucket {
    pub name: String,
    pub config: BucketConfig,
    pub states: HashMap<u64, KeyState>,
}

pub open spec fn state_of(states: Map<u64, KeyState>, key: u64) -> Option<KeyState> {
    if states.contains_key(key) {
        Some(states[key])
    } else {
        None
    }
}

impl Bucket {
    /// A bucket that has seen no key yet.
    pub fn new(name: &str, config: BucketConfig) -> (r: Self)
        ensures
            r.name@ == name@,
            r.config == config,
            r.states@ == Map::<u64, KeyState>::empty(),
    {
        Bucket { name: name.to_owned(), config, states: HashMap::new() }
    }

    /// One attempt by the caller of scope key `key` at time `now`.
    pub fn try_acquire(&mut self, key: u64, now: u64) -> (r: Acquire)
        ensures
            r == acquire_spec(old(self).config, state_of(old(self).states@, key), now).1,
            final(self).states@ == old(self).states@.insert(
                key,
                acquire_spec(old(self).config, state_of(old(self).states@, key), now).0,
            ),
            final(self).config == old(self).config,
            final(self).name == old(self).name,
    {
        let cfg = self.config;
        let w: KeyState = match self.states.get(&key) {
            None => KeyState {
                count: 0,
                window_start: now,
                delayed: 0,
                delay_notified: false,
                reject_notified: false,
            },
            Some(s) => {
                let s = *s;
                let el: u64 = if now >= s.window_start {
                    now - s.window_start
                } else {
                    0
                };
                if el >= cfg.time_span {
                    KeyState {
                        count: 0,
                        window_start: now,
                        delayed: s.delayed,
                        delay_notified: false,
                        reject_notified: false,
                    }
                } else {
                    s
                }
            },
        };
        assert(w == current_window(cfg, state_of(self.states@, key), now));
        let el: u64 = if now >= w.window_start {
            now - w.window_start
        } else {
            0
        };
        let remaining: u64 = if el <= cfg.time_span {
            cfg.time_span - el
        } else {
            0
        };
        let (next, r) = if w.count < cfg.limit {
            (
                KeyState {
                    count: w.count + 1,
                    window_start: w.window_start,
                    delayed: w.delayed,
                    delay_notified: w.delay_notified,
                    reject_notified: w.reject_notified,
                },
                Acquire::Allowed,
            )
        } else if cfg.delay.is_some() && w.delayed < cfg.await_limit {
            (
                KeyState {
                    count: w.count,
                    window_start: w.window_start,
                    delayed: w.delayed + 1,
                    delay_notified: true,
                    reject_notified: w.reject_notified,
                },
                Acquire::Delayed { wait: remaining, notify: !w.delay_notified },
            )
        } else {
            (
                KeyState {
                    count: w.count,
                    window_start: w.window_start,
                    delayed: w.delayed,
                    delay_notified: w.delay_notified,
                    reject_notified: true,
                },
                Acquire::Rejected { retry_after: remaining, first_try: !w.reject_notified },
            )
        };
        self.states.insert(key, next);
        r
    }

    /// A delayed caller of scope key `key` has waited and goes on: it no
    /// longer counts as waiting.
    pub fn finish_delay(&mut self, key: u64)
        ensures
            final(self).config == old(self).config,
            final(self).name == old(self).name,
            match state_of(old(self).states@, key) {
                Some(s) => s.delayed > 0 ==> final(self).states@ == old(self).states@.insert(
                    key,
                    KeyState {
                        count: s.count,
                        window_start: s.window_start,
                        delayed: (s.delayed - 1) as u64,
                        delay_notified: s.delay_notified,
                        reject_notified: s.reject_notified,
                    },
                ),
                None => true,
            },
            (state_of(old(self).states@, key) is None || state_of(old(self).states@, key).unwrap().delayed
                == 0) ==> final(self).states@ == old(self).states@,
    {
        match self.states.get(&key) {
            Some(s) => {
                let s = *s;
                if s.delayed > 0 {
                    let next = KeyState {
                        count: s.count,
                        window_start: s.window_start,
                        delayed: s.delayed - 1,
                        delay_notified: s.delay_notified,
                        reject_notified: s.reject_notified,
                    };
                    self.states.insert(key, next);
                }
            },
            None => {},
        }
    }
}

} // verus!
