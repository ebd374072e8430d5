//! Per-caller bounds: the submission quota, the push-configuration cap, and the live-stream counters.

use vstd::prelude::*;

use crate::text;
use crate::text::{opt_str_view, parsed_int};

verus! {

/// How long a tail waits for a wake-up before it looks again, in seconds.
pub const TAIL_POLL_FALLBACK_SECS: u64 = 5;

/// The longest a stream may live, in seconds.
pub const MAX_STREAM_LIFETIME_SECS: u64 = 10_800;

/// How many streams one replica serves at once.
pub const MAX_CONCURRENT_STREAMS: u32 = 64;

/// How many streams one caller may hold, unless configured.
pub const DEFAULT_MAX_STREAMS_PER_CALLER: u32 = 8;

/// How many active push configurations one caller may hold on a task, unless configured.
pub const DEFAULT_PUSH_CONFIG_CAP: i64 = 10;

/// How many submissions one caller may make within a window.
#[derive(Clone, Copy, Debug, PartialEq, Eq, Structural)]
pub struct QuotaConfig {
    pub max: i64,
    pub window_secs: i64,
}

/// The integer a setting holds, or the default where it is unset or no integer; never below one.
pub open spec fn setting_at_least_one(value: Option<Seq<char>>, default: i64) -> int {
    let n = match value {
        Some(s) => match parsed_int(s, i64::MIN as int, i64::MAX as int) {
            Some(v) => v,
            None => default as int,
        },
        None => default as int,
    };
    if n < 1 {
        1
    } else {
        n
    }
}

fn at_least_one(value: Option<&str>, default: i64) -> (r: i64)
    ensures
        r == setting_at_least_one(opt_str_view(value), default),
{
    let parsed: Option<i64> = match value {
        Some(s) => text::parse_i64(s),
        None => None,
    };
    let n: i64 = match parsed {
        Some(n) => n,
        None => default,
    };
    if n < 1 {
        1
    } else {
        n
    }
}

/// The quota that two settings of the environment write: twenty submissions an hour where they are
/// unset. Neither number is ever below one, so the service cannot be configured into an unbounded or a
/// closed state.
pub fn quota_from_env(max: Option<&str>, window_secs: Option<&str>) -> (r: QuotaConfig)
    ensures
        r.max == setting_at_least_one(opt_str_view(max), 20),
        r.window_secs == setting_at_least_one(opt_str_view(window_secs), 3600),
        r.max >= 1,
        r.window_secs >= 1,
{
    QuotaConfig { max: at_least_one(max, 20), window_secs: at_least_one(window_secs, 3600) }
}

/// Bounds on what one caller may hold.
#[derive(Clone, Copy, Debug, PartialEq, Eq, Structural)]
pub struct HandlerLimits {
    /// Active push configurations on one task.
    pub push_config_cap: i64,
    /// Live streams on this replica.
    pub max_streams_per_caller: u32,
}

impl Default for HandlerLimits {
    fn default() -> (r: HandlerLimits)
        ensures
            r.push_config_cap == DEFAULT_PUSH_CONFIG_CAP,
            r.max_streams_per_caller == DEFAULT_MAX_STREAMS_PER_CALLER,
    {
        HandlerLimits {
            push_config_cap: DEFAULT_PUSH_CONFIG_CAP,
            max_streams_per_caller: DEFAULT_MAX_STREAMS_PER_CALLER,
        }
    }
}

/// The positive integer a setting holds, or the default.
pub open spec fn positive_setting(value: Option<Seq<char>>, lo: int, hi: int, default: int) -> int {
    match value {
        Some(s) => match parsed_int(s, lo, hi) {
            Some(v) => if v > 0 {
                v
            } else {
                default
            },
            None => default,
        },
        None => default,
    }
}

impl HandlerLimits {
    /// The limits that two settings of the environment write; one that is unset, unreadable or not positive gives way to
    /// its default, so both limits are at least one.
    pub fn from_env(push_config_cap: Option<&str>, max_streams: Option<&str>) -> (r:
        HandlerLimits)
        ensures
            r.push_config_cap == positive_setting(
                opt_str_view(push_config_cap),
                i64::MIN as int,
                i64::MAX as int,
                DEFAULT_PUSH_CONFIG_CAP as int,
            ),
            r.max_streams_per_caller == positive_setting(
                opt_str_view(max_streams),
                0,
                u32::MAX as int,
                DEFAULT_MAX_STREAMS_PER_CALLER as int,
            ),
            r.push_config_cap >= 1,
            r.max_streams_per_caller >= 1,
    {
        let cap: Option<i64> = match push_config_cap {
            Some(s) => text::parse_i64(s),
            None => None,
        };
        let streams: Option<u32> = match max_streams {
            Some(s) => text::parse_u32(s),
            None => None,
        };
        let push_config_cap: i64 = match cap {
            Some(n) => if n > 0 {
                n
            } else {
                DEFAULT_PUSH_CONFIG_CAP
            },
            None => DEFAULT_PUSH_CONFIG_CAP,
        };
        let max_streams_per_caller: u32 = match streams {
            Some(n) => if n > 0 {
                n
            } else {
                DEFAULT_MAX_STREAMS_PER_CALLER
            },
            None => DEFAULT_MAX_STREAMS_PER_CALLER,
        };
        HandlerLimits { push_config_cap, max_streams_per_caller }
    }
}

/// How many streams each caller holds. A caller without any is not kept.
pub struct StreamCounters {
    entries: Vec<(String, u32)>,
}

/// The counters a list of entries writes.
pub open spec fn counter_map(entries: Seq<(String, u32)>) -> Map<Seq<char>, u32>
    decreases entries.len(),
{
    if entries.len() == 0 {
        Map::empty()
    } else {
        counter_map(entries.drop_last()).insert(entries.last().0@, entries.last().1)
    }
}

/// No caller stands twice, and each holds a stream.
pub open spec fn counters_wf(entries: Seq<(String, u32)>) -> bool {
    &&& forall|i: int, j: int|
        0 <= i < j < entries.len() ==> #[trigger] entries[i].0@ != #[trigger] entries[j].0@
    &&& forall|i: int| 0 <= i < entries.len() ==> (#[trigger] entries[i]).1 > 0
}

proof fn lemma_counter_at(entries: Seq<(String, u32)>, i: int)
    requires
        counters_wf(entries),
        0 <= i < entries.len(),
    ensures
        counter_map(entries).dom().contains(entries[i].0@),
        counter_map(entries)[entries[i].0@] == entries[i].1,
    decreases entries.len(),
{
    let rest = entries.drop_last();
    if i < entries.len() - 1 {
        assert(rest[i] == entries[i]);
        assert forall|a: int, b: int| 0 <= a < b < rest.len() implies #[trigger] rest[a].0@
            != #[trigger] rest[b].0@ by {
            assert(entries[a].0@ != entries[b].0@);
        }
        assert forall|a: int| 0 <= a < rest.len() implies (#[trigger] rest[a]).1 > 0 by {
            assert(entries[a].1 > 0);
        }
        lemma_counter_at(rest, i);
        assert(entries[i].0@ != entries[entries.len() - 1].0@);
    }
}

proof fn lemma_counter_dom(entries: Seq<(String, u32)>, key: Seq<char>)
    ensures
        counter_map(entries).dom().contains(key) <==> exists|i: int|
            0 <= i < entries.len() && (#[trigger] entries[i]).0@ == key,
    decreases entries.len(),
{
    if entries.len() > 0 {
        let rest = entries.drop_last();
        lemma_counter_dom(rest, key);
        if entries.last().0@ == key {
            assert(entries[entries.len() - 1].0@ == key);
        }
        if exists|i: int| 0 <= i < rest.len() && (#[trigger] rest[i]).0@ == key {
            let i = choose|i: int| 0 <= i < rest.len() && (#[trigger] rest[i]).0@ == key;
            assert(entries[i].0@ == key);
        }
        if exists|i: int| 0 <= i < entries.len() && (#[trigger] entries[i]).0@ == key {
            let i = choose|i: int| 0 <= i < entries.len() && (#[trigger] entries[i]).0@ == key;
            if i < rest.len() {
                assert(rest[i].0@ == key);
            }
        }
    }
}

proof fn lemma_counter_ext(entries: Seq<(String, u32)>, m: Map<Seq<char>, u32>)
    requires
        counters_wf(entries),
        forall|i: int|
            0 <= i < entries.len() ==> m.dom().contains((#[trigger] entries[i]).0@)
                && m[entries[i].0@] == entries[i].1,
        forall|k: Seq<char>| #[trigger]
            m.dom().contains(k) ==> exists|i: int|
                0 <= i < entries.len() && (#[trigger] entries[i]).0@ == k,
    ensures
        counter_map(entries) == m,
{
    let c = counter_map(entries);
    assert forall|k: Seq<char>| #[trigger] c.dom().contains(k) <==> m.dom().contains(k) by {
        lemma_counter_dom(entries, k);
    }
    assert forall|k: Seq<char>| #[trigger] c.dom().contains(k) implies c[k] == m[k] by {
        lemma_counter_dom(entries, k);
        let i = choose|i: int| 0 <= i < entries.len() && (#[trigger] entries[i]).0@ == k;
        lemma_counter_at(entries, i);
    }
    assert(c =~= m);
}

/// How many streams a caller holds.
pub open spec fn streams_of(counters: Map<Seq<char>, u32>, caller: Seq<char>) -> u32 {
    if counters.dom().contains(caller) {
        counters[caller]
    } else {
        0
    }
}

/// The counters with a caller at `n` streams; at none the caller is dropped.
pub open spec fn with_streams(counters: Map<Seq<char>, u32>, caller: Seq<char>, n: u32) -> Map<
    Seq<char>,
    u32,
> {
    if n == 0 {
        counters.remove(caller)
    } else {
        counters.insert(caller, n)
    }
}

impl View for StreamCounters {
    type V = Map<Seq<char>, u32>;

    closed spec fn view(&self) -> Map<Seq<char>, u32> {
        counter_map(self.entries@)
    }
}

impl StreamCounters {
    #[verifier::type_invariant]
    spec fn well_formed(self) -> bool {
        counters_wf(self.entries@)
    }

    /// No streams.
    pub fn new() -> (r: StreamCounters)
        ensures
            r@ == Map::<Seq<char>, u32>::empty(),
    {
        StreamCounters { entries: Vec::new() }
    }

    fn find(&self, caller_id: &str) -> (r: Option<usize>)
        ensures
            match r {
                Some(i) => i < self.entries@.len() && self.entries@[i as int].0@ == caller_id@,
                None => forall|i: int|
                    0 <= i < self.entries@.len() ==> (#[trigger] self.entries@[i]).0@ != caller_id@,
            },
    {
        let mut i: usize = 0;
        while i < self.entries.len()
            invariant
                i <= self.entries@.len(),
                forall|k: int|
                    0 <= k < i ==> (#[trigger] self.entries@[k]).0@ != caller_id@,
            decreases self.entries@.len() - i,
        {
            if text::same(self.entries[i].0.as_str(), caller_id) {
                return Some(i);
            }
            i = i + 1;
        }
        None
    }

    /// How many streams a caller holds.
    pub fn count(&self, caller_id: &str) -> (r: u32)
        ensures
            r == streams_of(self@, caller_id@),
    {
        proof {
            use_type_invariant(self);
        }
        match self.find(caller_id) {
            Some(i) => {
                proof {
                    lemma_counter_at(self.entries@, i as int);
                }
                self.entries[i].1
            },
            None => {
                proof {
                    lemma_counter_dom(self.entries@, caller_id@);
                }
                0
            },
        }
    }

    /// Takes a stream for a caller that holds fewer than `cap`; otherwise nothing changes.
    pub fn try_acquire(&mut self, caller_id: &str, cap: u32) -> (r: bool)
        ensures
            r == (streams_of(old(self)@, caller_id@) < cap),
            r ==> final(self)@ == with_streams(
                old(self)@,
                caller_id@,
                (streams_of(old(self)@, caller_id@) + 1) as u32,
            ),
            !r ==> final(self)@ == old(self)@,
    {
        let held: u32 = self.count(caller_id);
        if held >= cap {
            return false;
        }
        self.set(caller_id, held + 1);
        true
    }

    /// Gives a caller's stream back.
    pub fn release(&mut self, caller_id: &str)
        ensures
            final(self)@ == (if streams_of(old(self)@, caller_id@) == 0 {
                old(self)@
            } else {
                with_streams(
                    old(self)@,
                    caller_id@,
                    (streams_of(old(self)@, caller_id@) - 1) as u32,
                )
            }),
    {
        let held: u32 = self.count(caller_id);
        if held > 0 {
            self.set(caller_id, held - 1);
        }
    }

    fn set(&mut self, caller_id: &str, n: u32)
        ensures
            final(self)@ == with_streams(old(self)@, caller_id@, n),
    {
        proof {
            use_type_invariant(&*self);
        }
        let found: Option<usize> = self.find(caller_id);
        let ghost before = self.entries@;
        let ghost target = with_streams(counter_map(before), caller_id@, n);
        let mut entries: Vec<(String, u32)> = Vec::new();
        std::mem::swap(&mut entries, &mut self.entries);
        proof {
            assert forall|k: Seq<char>| #[trigger] counter_map(before).dom().contains(k) <==> exists|
                i: int,
            |
                0 <= i < before.len() && (#[trigger] before[i]).0@ == k by {
                lemma_counter_dom(before, k);
            }
            assert forall|i: int| 0 <= i < before.len() implies counter_map(before).dom().contains(
                (#[trigger] before[i]).0@,
            ) && counter_map(before)[before[i].0@] == before[i].1 by {
                lemma_counter_at(before, i);
            }
        }
        match found {
            Some(i) => {
                if n == 0 {
                    let _gone: (String, u32) = entries.remove(i);
                    proof {
                        let now = entries@;
                        assert forall|a: int, b: int|
                            0 <= a < b < now.len() implies #[trigger] now[a].0@
                            != #[trigger] now[b].0@ by {
                            let x = if a < i { a } else { a + 1 };
                            let y = if b < i { b } else { b + 1 };
                            assert(now[a] == before[x] && now[b] == before[y]);
                            assert(before[x].0@ != before[y].0@);
                        }
                        assert forall|a: int| 0 <= a < now.len() implies (#[trigger] now[a]).1 > 0
                            && target.dom().contains(now[a].0@) && target[now[a].0@] == now[a].1 by {
                            let x = if a < i { a } else { a + 1 };
                            assert(now[a] == before[x]);
                            assert(before[x].1 > 0);
                            if x < i {
                                assert(before[x].0@ != before[i as int].0@);
                            } else {
                                assert(before[i as int].0@ != before[x].0@);
                            }
                        }
                        assert forall|k: Seq<char>| #[trigger]
                            target.dom().contains(k) implies exists|a: int|
                            0 <= a < now.len() && (#[trigger] now[a]).0@ == k by {
                            assert(counter_map(before).dom().contains(k));
                            let x = choose|x: int|
                                0 <= x < before.len() && (#[trigger] before[x]).0@ == k;
                            assert(x != i);
                            let a = if x < i { x } else { x - 1 };
                            assert(now[a] == before[x]);
                        }
                        lemma_counter_ext(now, target);
                    }
                } else {
                    let name: String = caller_id.to_owned();
                    entries.set(i, (name, n));
                    proof {
                        let now = entries@;
                        assert forall|a: int, b: int|
                            0 <= a < b < now.len() implies #[trigger] now[a].0@
                            != #[trigger] now[b].0@ by {
                            assert(before[a].0@ != before[b].0@);
                        }
                        assert forall|a: int| 0 <= a < now.len() implies (#[trigger] now[a]).1 > 0
                            && target.dom().contains(now[a].0@) && target[now[a].0@] == now[a].1 by {
                            assert(before[a].1 > 0);
                            if a < i {
                                assert(before[a].0@ != before[i as int].0@);
                            } else if a > i {
                                assert(before[i as int].0@ != before[a].0@);
                            }
                        }
                        assert forall|k: Seq<char>| #[trigger]
                            target.dom().contains(k) implies exists|a: int|
                            0 <= a < now.len() && (#[trigger] now[a]).0@ == k by {
                            if k == caller_id@ {
                                assert(now[i as int].0@ == k);
                            } else {
                                assert(counter_map(before).dom().contains(k));
                                let x = choose|x: int|
                                    0 <= x < before.len() && (#[trigger] before[x]).0@ == k;
                                assert(now[x].0@ == k);
                            }
                        }
                        lemma_counter_ext(now, target);
                    }
                }
            },
            None => {
                proof {
                    lemma_counter_dom(before, caller_id@);
                }
                if n > 0 {
                    let name: String = caller_id.to_owned();
                    entries.push((name, n));
                    proof {
                        assert(entries@.drop_last() =~= before);
                        assert forall|a: int, b: int|
                            0 <= a < b < entries@.len() implies #[trigger] entries@[a].0@
                            != #[trigger] entries@[b].0@ by {
                            if b < before.len() {
                                assert(before[a].0@ != before[b].0@);
                            } else {
                                assert(entries@[a] == before[a]);
                            }
                        }
                        assert forall|a: int| 0 <= a < entries@.len() implies (
                        #[trigger] entries@[a]).1 > 0 by {
                            if a < before.len() {
                                assert(before[a].1 > 0);
                            }
                        }
                    }
                } else {
                    assert(target =~= counter_map(before));
                }
            },
        }
        self.entries = entries;
    }
}

impl Default for StreamCounters {
    fn default() -> (r: StreamCounters)
        ensures
            r@ == Map::<Seq<char>, u32>::empty(),
    {
        StreamCounters::new()
    }
}

/// Giving a stream back undoes taking it: the counters are as they were, for every caller.
pub proof fn law_release_undoes_acquire(counters: Map<Seq<char>, u32>, caller: Seq<char>)
    requires
        streams_of(counters, caller) < u32::MAX,
        counters.dom().contains(caller) ==> counters[caller] > 0,
    ensures
        ({
            let held = streams_of(counters, caller);
            let taken = with_streams(counters, caller, (held + 1) as u32);
            with_streams(taken, caller, (streams_of(taken, caller) - 1) as u32) == counters
        }),
{
    let held = streams_of(counters, caller);
    let taken = with_streams(counters, caller, (held + 1) as u32);
    assert(with_streams(taken, caller, held) =~= counters);
}

/// One caller's streams never count against another's.
pub proof fn law_callers_have_their_own_budget(
    counters: Map<Seq<char>, u32>,
    caller: Seq<char>,
    other: Seq<char>,
    n: u32,
)
    requires
        caller != other,
    ensures
        streams_of(with_streams(counters, caller, n), other) == streams_of(counters, other),
{
}

} // verus!
