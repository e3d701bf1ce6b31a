use vstd::prelude::*;
use crate::counter::{bumped, InvocationCounter};
use crate::gating::{gate, gate_spec, Caller, GatingReason};
use crate::ratelimit::{acquire_spec, state_of, Acquire, Bucket, LimitScope};
use crate::registry::{resolve_spec, CommandDescriptor, Group, Registry};
use crate::tokenizer::{tokenize, tokenize_spec, TokenizerConfig, Tokens, TokensSpec};

verus! {

broadcast use vstd::std_specs::hash::group_hash_axioms;

/// One incoming message.
pub struct Event {
    pub author_id: u64,
    pub channel_id: u64,
    pub text: String,
    pub is_bot_author: bool,
    /// The author's guild, permission bits and role names.
    pub caller: Caller,
}

/// Why a found command did not run.
#[derive(Clone, Copy, Debug, PartialEq, Eq, Structural)]
pub enum DispatchError {
    Gating(GatingReason),
    RateLimited { retry_after: u64, first_try: bool },
}

/// What the dispatch of one event decided, and so which hook comes next.
pub enum Outcome {
    /// A bot wrote the message: nothing happens.
    Ignored,
    /// The message is no command: the normal-message hook runs.
    NormalMessage,
    /// A command line naming no known command: the unknown-command hook runs.
    Unknown { name: String },
    /// The command was found and not allowed: the dispatch-error hook runs.
    Denied { command: String, error: DispatchError },
    /// The command runs after `wait` seconds; then the delay on `key` of bucket
    /// number `bucket` ends. `notify` asks for the delay notice.
    Delayed { command: String, args: String, bucket: usize, key: u64, wait: u64, notify: bool },
    /// The command runs now: pre-dispatch hook, handler, post-dispatch hook.
    Run { command: String, args: String },
}

pub enum OutcomeSpec {
    Ignored,
    NormalMessage,
    Unknown { name: Seq<char> },
    Denied { command: Seq<char>, error: DispatchError },
    Delayed { command: Seq<char>, args: Seq<char>, bucket: int, key: u64, wait: u64, notify: bool },
    Run { command: Seq<char>, args: Seq<char> },
}

impl Outcome {
    pub open spec fn view(&self) -> OutcomeSpec {
        match self {
            Outcome::Ignored => OutcomeSpec::Ignored,
            Outcome::NormalMessage => OutcomeSpec::NormalMessage,
            Outcome::Unknown { name } => OutcomeSpec::Unknown { name: name@ },
            Outcome::Denied { command, error } => OutcomeSpec::Denied { command: command@, error: *error },
            Outcome::Delayed { command, args, bucket, key, wait, notify } => OutcomeSpec::Delayed {
                command: command@,
                args: args@,
                bucket: *bucket as int,
                key: *key,
                wait: *wait,
                notify: *notify,
            },
            Outcome::Run { command, args } => OutcomeSpec::Run { command: command@, args: args@ },
        }
    }
}

/// The parts of one dispatch that a found command leads to.
pub enum Decision {
    Ignored,
    NormalMessage,
    Unknown { name: Seq<char> },
    Gated { command: Seq<char>, reason: GatingReason },
    /// No bucket applies.
    Unlimited { command: Seq<char>, args: Seq<char> },
    /// Bucket number `bucket` applies, for scope key `key`.
    Limited { command: Seq<char>, args: Seq<char>, bucket: int, key: u64, acquire: Acquire },
}

/// The scope key an event falls under.
pub open spec fn scope_key(scope: LimitScope, ev: Event) -> u64 {
    match scope {
        LimitScope::Channel => ev.channel_id,
        LimitScope::User => ev.author_id,
        LimitScope::Guild => match ev.caller.guild_id {
            Some(g) => g,
            None => ev.channel_id,
        },
        LimitScope::Global => 0,
    }
}

/// The bucket a command draws from: its own, else its group's.
pub open spec fn bucket_name(group: Group, cmd: CommandDescriptor) -> Option<Seq<char>> {
    match cmd.gating.bucket {
        Some(b) => Some(b@),
        None => match group.gating.bucket {
            Some(b) => Some(b@),
            None => None,
        },
    }
}

/// The first bucket, from index `j` on, named `name`.
pub open spec fn find_bucket(buckets: Seq<Bucket>, name: Seq<char>, j: int) -> Option<int>
    decreases buckets.len() - j,
{
    if j < 0 || j >= buckets.len() {
        None
    } else if buckets[j].name@ == name {
        Some(j)
    } else {
        find_bucket(buckets, name, j + 1)
    }
}

/// The argument text: the path segments that named no command, then the tail.
pub open spec fn args_of(text: Seq<char>, path: Seq<Seq<char>>, starts: Seq<int>, tail: Seq<char>, consumed: int) -> Seq<
    char,
> {
    if consumed < path.len() {
        text.subrange(starts[consumed], text.len() as int)
    } else {
        tail
    }
}

pub open spec fn decide(d: Dispatcher, ev: Event, now: u64) -> Decision {
    if ev.is_bot_author {
        Decision::Ignored
    } else {
        match tokenize_spec(ev.text@, d.tokenizer.view()) {
            TokensSpec::NoMatch => Decision::NormalMessage,
            TokensSpec::Matched { path, starts, tail } => match resolve_spec(d.registry.groups@, path) {
                None => Decision::Unknown { name: path[0] },
                Some((group, cmd, consumed, command)) => {
                    let args = args_of(ev.text@, path, starts, tail, consumed);
                    match gate_spec(group.gating, cmd.gating, ev.caller) {
                        Some(reason) => Decision::Gated { command, reason },
                        None => {
                            let found = match bucket_name(group, cmd) {
                                Some(name) => find_bucket(d.buckets@, name, 0),
                                None => None,
                            };
                            match found {
                                None => Decision::Unlimited { command, args },
                                Some(b) => {
                                    let bucket = d.buckets@[b];
                                    let key = scope_key(bucket.config.scope, ev);
                                    let acquire = acquire_spec(bucket.config, state_of(bucket.states@, key), now).1;
                                    Decision::Limited { command, args, bucket: b, key, acquire }
                                },
                            }
                        },
                    }
                },
            },
        }
    }
}

pub open spec fn outcome_of(dec: Decision) -> OutcomeSpec {
    match dec {
        Decision::Ignored => OutcomeSpec::Ignored,
        Decision::NormalMessage => OutcomeSpec::NormalMessage,
        Decision::Unknown { name } => OutcomeSpec::Unknown { name },
        Decision::Gated { command, reason } => OutcomeSpec::Denied { command, error: DispatchError::Gating(reason) },
        Decision::Unlimited { command, args } => OutcomeSpec::Run { command, args },
        Decision::Limited { command, args, bucket, key, acquire } => match acquire {
            Acquire::Allowed => OutcomeSpec::Run { command, args },
            Acquire::Delayed { wait, notify } => OutcomeSpec::Delayed { command, args, bucket, key, wait, notify },
            Acquire::Rejected { retry_after, first_try } => OutcomeSpec::Denied {
                command,
                error: DispatchError::RateLimited { retry_after, first_try },
            },
        },
    }
}

/// The command counted by a dispatch: one that passed its checks and will run.
pub open spec fn counted(dec: Decision) -> Option<Seq<char>> {
    match dec {
        Decision::Unlimited { command, .. } => Some(command),
        Decision::Limited { command, acquire, .. } => match acquire {
            Acquire::Rejected { .. } => None,
            _ => Some(command),
        },
        _ => None,
    }
}

/// How a handler that ran ended, as the post-dispatch hook sees it.
pub enum Completion {
    Completed,
    Failed { cause: String },
}

/// The completion that a handler's result stands for.
pub fn conclude(result: Result<(), String>) -> (r: Completion)
    ensures
        match result {
            Ok(()) => r is Completed,
            Err(cause) => r matches Completion::Failed { cause: c } && c == cause,
        },
{
    match result {
        Ok(()) => Completion::Completed,
        Err(cause) => Completion::Failed { cause },
    }
}

/// Owns everything one dispatch reads and changes.
pub struct Dispatcher {
    pub tokenizer: TokenizerConfig,
    pub registry: Registry,
    pub buckets: Vec<Bucket>,
    pub counter: InvocationCounter,
}

fn find_bucket_exec(buckets: &Vec<Bucket>, name: &String) -> (r: Option<usize>)
    ensures
        match r {
            Some(j) => find_bucket(buckets@, name@, 0) == Some(j as int) && j < buckets@.len(),
            None => find_bucket(buckets@, name@, 0) == None::<int>,
        },
{
    let mut j: usize = 0;
    while j < buckets.len()
        invariant
            j <= buckets@.len(),
            find_bucket(buckets@, name@, 0) == find_bucket(buckets@, name@, j as int),
        decreases buckets@.len() - j,
    {
        if buckets[j].name == *name {
            return Some(j);
        }
        j = j + 1;
    }
    None
}

fn scope_key_exec(scope: LimitScope, ev: &Event) -> (r: u64)
    ensures
        r == scope_key(scope, *ev),
{
    match scope {
        LimitScope::Channel => ev.channel_id,
        LimitScope::User => ev.author_id,
        LimitScope::Guild => match ev.caller.guild_id {
            Some(g) => g,
            None => ev.channel_id,
        },
        LimitScope::Global => 0,
    }
}

impl Dispatcher {
    /// A dispatcher over a tokenizer configuration, a registry and the
    /// buckets, with every count at zero.
    pub fn new(tokenizer: TokenizerConfig, registry: Registry, buckets: Vec<Bucket>) -> (r: Self)
        ensures
            r.tokenizer == tokenizer,
            r.registry == registry,
            r.buckets == buckets,
            forall|n: Seq<char>| r.counter.count_of(n) == 0,
    {
        Dispatcher { tokenizer, registry, buckets, counter: InvocationCounter::new() }
    }

    /// Takes one event through tokenizing, resolution, the checks and the
    /// rate limit, and says which hook comes next. A command that passed its
    /// checks and will run is counted; a bucket that was drawn from records
    /// the attempt.
    pub fn dispatch(&mut self, ev: &Event, now: u64) -> (r: Outcome)
        ensures
            r.view() == outcome_of(decide(*old(self), *ev, now)),
            final(self).tokenizer == old(self).tokenizer,
            final(self).registry == old(self).registry,
            match counted(decide(*old(self), *ev, now)) {
                Some(q) => final(self).counter.count_of(q) == bumped(old(self).counter.count_of(q))
                    && forall|n: Seq<char>|
                    n != q ==> #[trigger] final(self).counter.count_of(n) == old(self).counter.count_of(n),
                None => forall|n: Seq<char>| #[trigger]
                    final(self).counter.count_of(n) == old(self).counter.count_of(n),
            },
            match decide(*old(self), *ev, now) {
                Decision::Limited { bucket, key, .. } => final(self).buckets@ == old(self).buckets@.update(
                    bucket,
                    Bucket {
                        name: old(self).buckets@[bucket].name,
                        config: old(self).buckets@[bucket].config,
                        states: final(self).buckets@[bucket].states,
                    },
                ) && final(self).buckets@[bucket].states@ == old(self).buckets@[bucket].states@.insert(
                    key,
                    acquire_spec(
                        old(self).buckets@[bucket].config,
                        state_of(old(self).buckets@[bucket].states@, key),
                        now,
                    ).0,
                ),
                _ => final(self).buckets == old(self).buckets,
            },
    {
        let ghost dec = decide(*self, *ev, now);
        if ev.is_bot_author {
            return Outcome::Ignored;
        }
        let tokens = tokenize(&self.tokenizer, ev.text.as_str());
        match tokens {
            Tokens::NoMatch => Outcome::NormalMessage,
            Tokens::Matched { path, starts, tail } => {
                assert(path.deep_view()[0] == path@[0]@);
                let resolution = self.registry.resolve(&path);
                match resolution {
                    None => Outcome::Unknown { name: path[0].clone() },
                    Some(res) => {
                        let args = if res.consumed < path.len() {
                            let from = starts[res.consumed];
                            proof {
                                assert(starts@.map_values(|x: usize| x as int)[res.consumed as int]
                                    == starts@[res.consumed as int] as int);
                            }
                            ev.text.as_str().substring_char(from, ev.text.as_str().unicode_len()).to_owned()
                        } else {
                            tail
                        };
                        match gate(&res.group.gating, &res.command.gating, &ev.caller) {
                            Some(reason) => Outcome::Denied {
                                command: res.qualified,
                                error: DispatchError::Gating(reason),
                            },
                            None => {
                                let bucket_name = match &res.command.gating.bucket {
                                    Some(b) => Some(b),
                                    None => match &res.group.gating.bucket {
                                        Some(b) => Some(b),
                                        None => None,
                                    },
                                };
                                let found = match bucket_name {
                                    Some(name) => find_bucket_exec(&self.buckets, name),
                                    None => None,
                                };
                                match found {
                                    None => {
                                        self.counter.increment(res.qualified.as_str());
                                        Outcome::Run { command: res.qualified, args }
                                    },
                                    Some(b) => {
                                        let key = scope_key_exec(self.buckets[b].config.scope, ev);
                                        let ghost before = self.buckets@;
                                        let mut bucket = self.buckets.remove(b);
                                        let acquire = bucket.try_acquire(key, now);
                                        self.buckets.insert(b, bucket);
                                        assert(self.buckets@ =~= before.update(b as int, bucket));
                                        match acquire {
                                            Acquire::Allowed => {
                                                self.counter.increment(res.qualified.as_str());
                                                Outcome::Run { command: res.qualified, args }
                                            },
                                            Acquire::Delayed { wait, notify } => {
                                                self.counter.increment(res.qualified.as_str());
                                                Outcome::Delayed {
                                                    command: res.qualified,
                                                    args,
                                                    bucket: b,
                                                    key,
                                                    wait,
                                                    notify,
                                                }
                                            },
                                            Acquire::Rejected { retry_after, first_try } => Outcome::Denied {
                                                command: res.qualified,
                                                error: DispatchError::RateLimited { retry_after, first_try },
                                            },
                                        }
                                    },
                                }
                            },
                        }
                    },
                }
            },
        }
    }

    /// A delayed command has waited: the delay on `key` of bucket number
    /// `bucket` ends.
    pub fn finish_delay(&mut self, bucket: usize, key: u64)
        requires
            bucket < old(self).buckets@.len(),
        ensures
            final(self).tokenizer == old(self).tokenizer,
            final(self).registry == old(self).registry,
            final(self).counter == old(self).counter,
            final(self).buckets@.len() == old(self).buckets@.len(),
            forall|j: int| 0 <= j < old(self).buckets@.len() && j != bucket ==> #[trigger] final(self).buckets@[j] == old(self).buckets@[j],
            final(self).buckets@[bucket as int].name == old(self).buckets@[bucket as int].name,
            final(self).buckets@[bucket as int].config == old(self).buckets@[bucket as int].config,
            match state_of(old(self).buckets@[bucket as int].states@, key) {
                Some(s) => final(self).buckets@[bucket as int].states@ == if s.delayed > 0 {
                    old(self).buckets@[bucket as int].states@.insert(
                        key,
                        crate::ratelimit::KeyState {
                            count: s.count,
                            window_start: s.window_start,
                            delayed: (s.delayed - 1) as u64,
                            delay_notified: s.delay_notified,
                            reject_notified: s.reject_notified,
                        },
                    )
                } else {
                    old(self).buckets@[bucket as int].states@
                },
                None => final(self).buckets@[bucket as int].states@ == old(self).buckets@[bucket as int].states@,
            },
    {
        let mut b = self.buckets.remove(bucket);
        b.finish_delay(key);
        self.buckets.insert(bucket, b);
    }

    /// The number of dispatches that counted `name`.
    pub fn invocations(&self, name: &str) -> (r: u64)
        ensures
            r == self.counter.count_of(name@),
    {
        self.counter.get(name)
    }
}

} // verus!
