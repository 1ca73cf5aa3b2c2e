//! A limit on how often each client may ask for a tunnel.
use crate::clock;
use crate::clock::{time_since, Clock};
use crate::table::Table;
use vstd::prelude::*;

verus! {

/// The times among `stamps` that lie less than `window` back at the time `now`, in order.
pub open spec fn recent(stamps: Seq<u128>, window: u128, now: u128) -> Seq<u128>
    decreases stamps.len(),
{
    if stamps.len() == 0 {
        Seq::empty()
    } else {
        let before = recent(stamps.drop_last(), window, now);
        if clock::age(now, stamps.last()) < window {
            before.push(stamps.last())
        } else {
            before
        }
    }
}

/// What a rate limiter knows: the clock that it goes by, how many grants a window may hold, how
/// long a window is, and for each key when it was granted something.
#[verifier::ext_equal]
pub ghost struct Limits {
    pub clock: Clock,
    pub limit: nat,
    pub window: u128,
    pub entries: Map<Seq<char>, Seq<u128>>,
}

impl Limits {
    /// The times that are noted for a key.
    pub open spec fn stamps(self, key: Seq<char>) -> Seq<u128> {
        if self.entries.contains_key(key) {
            self.entries[key]
        } else {
            Seq::empty()
        }
    }

    /// A call for the key is granted at the time `now`.
    pub open spec fn allows(self, key: Seq<char>, now: u128) -> bool {
        recent(self.stamps(key), self.window, now).len() < self.limit
    }

    /// What is known after a call for the key at the time `now`.
    pub open spec fn after(self, key: Seq<char>, now: u128) -> Limits {
        let kept = recent(self.stamps(key), self.window, now);
        Limits {
            entries: self.entries.insert(
                key,
                if self.allows(key, now) {
                    kept.push(now)
                } else {
                    kept
                },
            ),
            ..self
        }
    }

    /// What is known after a sequence of calls, each with its key and its time.
    pub open spec fn after_calls(self, calls: Seq<(Seq<char>, u128)>) -> Limits
        decreases calls.len(),
    {
        if calls.len() == 0 {
            self
        } else {
            self.after_calls(calls.drop_last()).after(calls.last().0, calls.last().1)
        }
    }

    /// The times of the calls for the key that were granted in a sequence of calls.
    pub open spec fn grants(self, calls: Seq<(Seq<char>, u128)>, key: Seq<char>) -> Seq<u128>
        decreases calls.len(),
    {
        if calls.len() == 0 {
            Seq::empty()
        } else {
            let before = self.grants(calls.drop_last(), key);
            let call = calls.last();
            if call.0 == key && self.after_calls(calls.drop_last()).allows(call.0, call.1) {
                before.push(call.1)
            } else {
                before
            }
        }
    }
}

/// A rate limiter for tunnel creation.
pub struct CreateRateLimiter {
    limit: usize,
    window: u128,
    clock: Clock,
    entries: Table<Vec<u128>>,
}

impl View for CreateRateLimiter {
    type V = Limits;

    closed spec fn view(&self) -> Limits {
        Limits {
            clock: self.clock,
            limit: self.limit as nat,
            window: self.window,
            entries: self.entries@.map_values(|stamps: Vec<u128>| stamps@),
        }
    }
}

impl CreateRateLimiter {
    /// No key has two entries.
    pub closed spec fn wf(&self) -> bool {
        self.entries.wf()
    }

    /// A limiter that grants each key `limit` calls within `window` nanoseconds.
    pub fn new(limit: usize, window: u128) -> (limiter: Self)
        ensures
            limiter.wf(),
            limiter@.clock.started(),
            limiter@ == (Limits {
                clock: limiter@.clock,
                limit: limit as nat,
                window,
                entries: Map::empty(),
            }),
    {
        let limiter = CreateRateLimiter {
            limit,
            window,
            clock: Clock::new(),
            entries: Table::new(),
        };
        assert(limiter@.entries =~= Map::empty());
        limiter
    }

    /// Grants or refuses a call for the key at the time `now`.
    pub fn allow_at(&mut self, key: &str, now: u128) -> (allowed: bool)
        requires
            old(self).wf(),
        ensures
            final(self).wf(),
            allowed == old(self)@.allows(key@, now),
            final(self)@ == old(self)@.after(key@, now),
    {
        let stamps: Vec<u128> = match self.entries.remove(key) {
            Some(stamps) => stamps,
            None => Vec::new(),
        };
        let ghost noted = old(self)@.stamps(key@);
        assert(stamps@ == noted);
        let mut kept: Vec<u128> = Vec::new();
        let mut i: usize = 0;
        while i < stamps.len()
            invariant
                stamps@ == noted,
                i <= stamps.len(),
                kept@ == recent(noted.take(i as int), self.window, now),
            decreases stamps.len() - i,
        {
            assert(noted.take(i + 1).drop_last() == noted.take(i as int));
            let stamp: u128 = stamps[i];
            if time_since(now, stamp) < self.window {
                kept.push(stamp);
            }
            i = i + 1;
        }
        assert(noted.take(noted.len() as int) == noted);
        let allowed = kept.len() < self.limit;
        if allowed {
            kept.push(now);
        }
        let ghost list = kept@;
        self.entries.insert(key.to_owned(), kept);
        assert(self@.entries =~= old(self)@.entries.insert(key@, list));
        allowed
    }

    /// Grants or refuses a call for the key now.
    pub fn allow(&mut self, key: &str) -> (allowed: bool)
        requires
            old(self).wf(),
        ensures
            final(self).wf(),
            exists|now: u128|
                {
                    &&& old(self)@.clock.reads(now)
                    &&& allowed == old(self)@.allows(key@, now)
                    &&& final(self)@ == #[trigger] old(self)@.after(key@, now)
                },
    {
        let now: u128 = self.clock.now();
        self.allow_at(key, now)
    }
}

/// The calls come in the order of their times.
pub open spec fn in_order(calls: Seq<(Seq<char>, u128)>) -> bool {
    forall|i: int, j: int|
        0 <= i <= j < calls.len() ==> (#[trigger] calls[i]).1 <= (#[trigger] calls[j]).1
}

/// How many of the times in `grants` lie in the window that ends with `moment`.
pub open spec fn within(grants: Seq<u128>, window: u128, moment: u128) -> nat
    decreases grants.len(),
{
    if grants.len() == 0 {
        0
    } else {
        let before = within(grants.drop_last(), window, moment);
        if grants.last() <= moment && moment - grants.last() < window {
            before + 1
        } else {
            before
        }
    }
}

proof fn lemma_recent_of_recent(stamps: Seq<u128>, window: u128, now: u128, later: u128)
    requires
        now <= later,
    ensures
        recent(recent(stamps, window, now), window, later) == recent(stamps, window, later),
    decreases stamps.len(),
{
    if stamps.len() > 0 {
        let before = recent(stamps.drop_last(), window, now);
        lemma_recent_of_recent(stamps.drop_last(), window, now, later);
        assert(before.push(stamps.last()).drop_last() =~= before);
    }
}

proof fn lemma_recent_push(stamps: Seq<u128>, window: u128, stamp: u128, now: u128)
    ensures
        recent(stamps.push(stamp), window, now) == (if clock::age(now, stamp) < window {
            recent(stamps, window, now).push(stamp)
        } else {
            recent(stamps, window, now)
        }),
{
    assert(stamps.push(stamp).drop_last() =~= stamps);
}

proof fn lemma_calls_keep_the_rules(start: Limits, calls: Seq<(Seq<char>, u128)>)
    ensures
        start.after_calls(calls).limit == start.limit,
        start.after_calls(calls).window == start.window,
    decreases calls.len(),
{
    if calls.len() > 0 {
        lemma_calls_keep_the_rules(start, calls.drop_last());
    }
}

proof fn lemma_init_in_order(calls: Seq<(Seq<char>, u128)>)
    requires
        in_order(calls),
        calls.len() > 0,
    ensures
        in_order(calls.drop_last()),
        forall|i: int|
            0 <= i < calls.drop_last().len() ==> (#[trigger] calls.drop_last()[i]).1
                <= calls.last().1,
{
    let init = calls.drop_last();
    assert forall|i: int, j: int| 0 <= i <= j < init.len() implies (#[trigger] init[i]).1 <= (
    #[trigger] init[j]).1 by {
        assert(calls[i].1 <= calls[j].1);
    }
    assert forall|i: int| 0 <= i < init.len() implies (#[trigger] init[i]).1 <= calls.last().1 by {
        assert(calls[i].1 <= calls[calls.len() - 1].1);
    }
}

proof fn lemma_stamps_show_recent_grants(
    start: Limits,
    calls: Seq<(Seq<char>, u128)>,
    key: Seq<char>,
    now: u128,
)
    requires
        start.entries == Map::<Seq<char>, Seq<u128>>::empty(),
        in_order(calls),
        calls.len() == 0 || calls.last().1 <= now,
    ensures
        recent(start.after_calls(calls).stamps(key), start.window, now) == recent(
            start.grants(calls, key),
            start.window,
            now,
        ),
    decreases calls.len(),
{
    if calls.len() > 0 {
        let init = calls.drop_last();
        let call = calls.last();
        lemma_init_in_order(calls);
        if init.len() > 0 {
            assert(init[init.len() - 1].1 <= call.1);
        }
        lemma_stamps_show_recent_grants(start, init, key, now);
        lemma_calls_keep_the_rules(start, init);
        let known = start.after_calls(init);
        let noted = known.stamps(call.0);
        let kept = recent(noted, start.window, call.1);
        if call.0 == key {
            lemma_recent_of_recent(noted, start.window, call.1, now);
            lemma_recent_push(kept, start.window, call.1, now);
            lemma_recent_push(start.grants(init, key), start.window, call.1, now);
        }
    }
}

proof fn lemma_grants_come_in_order(
    start: Limits,
    calls: Seq<(Seq<char>, u128)>,
    key: Seq<char>,
    now: u128,
)
    requires
        in_order(calls),
        calls.len() == 0 || calls.last().1 <= now,
    ensures
        forall|i: int|
            0 <= i < start.grants(calls, key).len() ==> #[trigger] start.grants(calls, key)[i]
                <= now,
    decreases calls.len(),
{
    if calls.len() > 0 {
        lemma_init_in_order(calls);
        let init = calls.drop_last();
        if init.len() > 0 {
            assert(init[init.len() - 1].1 <= calls.last().1);
        }
        lemma_grants_come_in_order(start, init, key, now);
        let before = start.grants(init, key);
        let grants = start.grants(calls, key);
        assert forall|i: int| 0 <= i < grants.len() implies #[trigger] grants[i] <= now by {
            if i < before.len() {
                assert(grants[i] == before[i]);
            }
        }
    }
}

proof fn lemma_window_shrinks(grants: Seq<u128>, window: u128, now: u128, later: u128)
    requires
        now <= later,
        forall|i: int| 0 <= i < grants.len() ==> #[trigger] grants[i] <= now,
    ensures
        within(grants, window, later) <= recent(grants, window, now).len(),
    decreases grants.len(),
{
    if grants.len() > 0 {
        let init = grants.drop_last();
        assert forall|i: int| 0 <= i < init.len() implies #[trigger] init[i] <= now by {
            assert(grants[i] <= now);
        }
        lemma_window_shrinks(init, window, now, later);
        assert(grants[grants.len() - 1] <= now);
    }
}

/// Whatever calls come in, in the order of their times, and whatever moment one looks at: the
/// window that ends there holds at most `limit` grants for each key.
pub proof fn no_window_holds_more_than_the_limit(
    start: Limits,
    calls: Seq<(Seq<char>, u128)>,
    key: Seq<char>,
    moment: u128,
)
    requires
        start.entries == Map::<Seq<char>, Seq<u128>>::empty(),
        in_order(calls),
    ensures
        within(start.grants(calls, key), start.window, moment) <= start.limit,
    decreases calls.len(),
{
    if calls.len() > 0 {
        let init = calls.drop_last();
        let call = calls.last();
        lemma_init_in_order(calls);
        if init.len() > 0 {
            assert(init[init.len() - 1].1 <= call.1);
        }
        no_window_holds_more_than_the_limit(start, init, key, moment);
        let before = start.grants(init, key);
        if call.0 == key && start.after_calls(init).allows(key, call.1) {
            assert(before.push(call.1).drop_last() =~= before);
            if call.1 <= moment {
                lemma_calls_keep_the_rules(start, init);
                lemma_stamps_show_recent_grants(start, init, key, call.1);
                lemma_grants_come_in_order(start, init, key, call.1);
                lemma_window_shrinks(before, start.window, call.1, moment);
            }
        }
    }
}

/// A call is granted exactly where fewer than `limit` calls for its key were granted within the
/// window before it.
pub proof fn call_is_granted_below_the_limit(
    start: Limits,
    calls: Seq<(Seq<char>, u128)>,
    key: Seq<char>,
    now: u128,
)
    requires
        start.entries == Map::<Seq<char>, Seq<u128>>::empty(),
        in_order(calls),
        calls.len() == 0 || calls.last().1 <= now,
    ensures
        start.after_calls(calls).allows(key, now) == (recent(
            start.grants(calls, key),
            start.window,
            now,
        ).len() < start.limit),
{
    lemma_calls_keep_the_rules(start, calls);
    lemma_stamps_show_recent_grants(start, calls, key, now);
}

/// The calls for one key do not count against another.
pub proof fn keys_are_independent(
    limits: Limits,
    key: Seq<char>,
    now: u128,
    other: Seq<char>,
    later: u128,
)
    requires
        other != key,
    ensures
        limits.after(key, now).allows(other, later) == limits.allows(other, later),
{
}

/// A refused call does not count: it does not make a later call be refused.
pub proof fn refused_call_does_not_count(limits: Limits, key: Seq<char>, now: u128, later: u128)
    requires
        !limits.allows(key, now),
        now <= later,
    ensures
        limits.after(key, now).allows(key, later) == limits.allows(key, later),
{
    lemma_recent_of_recent(limits.stamps(key), limits.window, now, later);
}

/// Once a whole window has passed since the last noted time, a call is granted again.
pub proof fn limit_recovers_after_the_window(limits: Limits, key: Seq<char>, now: u128)
    requires
        limits.limit > 0,
        forall|i: int|
            0 <= i < limits.stamps(key).len() ==> now - #[trigger] limits.stamps(key)[i]
                >= limits.window,
    ensures
        limits.allows(key, now),
{
    lemma_nothing_recent(limits.stamps(key), limits.window, now);
}

proof fn lemma_nothing_recent(stamps: Seq<u128>, window: u128, now: u128)
    requires
        forall|i: int| 0 <= i < stamps.len() ==> now - #[trigger] stamps[i] >= window,
    ensures
        recent(stamps, window, now).len() == 0,
    decreases stamps.len(),
{
    if stamps.len() > 0 {
        let init = stamps.drop_last();
        assert forall|i: int| 0 <= i < init.len() implies now - #[trigger] init[i] >= window by {
            assert(now - stamps[i] >= window);
        }
        lemma_nothing_recent(init, window, now);
        assert(now - stamps[stamps.len() - 1] >= window);
    }
}

} // verus!
