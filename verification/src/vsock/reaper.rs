//! Released sockets are kept for a while and then removed.
use vstd::prelude::*;

use std::collections::HashMap;

verus! {

/// How long a released socket is kept, in nanoseconds.
pub const TIMEOUT_NS: u64 = 5_000_000_000;

/// How long is left until `timeout`; nothing once it is reached.
pub fn remaining_timeout(elapsed: u64, timeout: u64) -> (res: Option<u64>)
    ensures
        res == if elapsed >= timeout {
            None
        } else {
            Some((timeout - elapsed) as u64)
        },
        res matches Some(left) ==> left > 0,
{
    if elapsed >= timeout {
        None
    } else {
        Some(timeout - elapsed)
    }
}

/// Whether `deadline` is how long to sleep for connections that have been released for the
/// times `elapsed`: the least that is left of `timeout` for any of those that are not yet
/// over. There is none where the time of all is over.
pub open spec fn is_deadline(elapsed: Seq<u64>, timeout: u64, deadline: Option<u64>) -> bool {
    match deadline {
        Some(left) => {
            &&& exists|i: int|
                0 <= i < elapsed.len() && #[trigger] elapsed[i] < timeout && left == timeout
                    - elapsed[i]
            &&& forall|i: int|
                0 <= i < elapsed.len() && #[trigger] elapsed[i] < timeout ==> left <= timeout
                    - elapsed[i]
        },
        None => forall|i: int| 0 <= i < elapsed.len() ==> #[trigger] elapsed[i] >= timeout,
    }
}

/// How long to sleep for connections that have been released for the times
/// `elapsed_values`; for ever if there is no deadline.
pub fn reaper_wakeup_deadline(elapsed_values: &[u64], timeout: u64) -> (res: Option<u64>)
    ensures
        is_deadline(elapsed_values@, timeout, res),
        res matches Some(left) ==> 0 < left <= timeout,
{
    let mut deadline: Option<u64> = None;
    let mut i: usize = 0;
    while i < elapsed_values.len()
        invariant
            i <= elapsed_values@.len(),
            is_deadline(elapsed_values@.take(i as int), timeout, deadline),
        decreases elapsed_values@.len() - i,
    {
        let ghost before = elapsed_values@.take(i as int);
        let ghost after = elapsed_values@.take(i + 1);
        let ghost least = deadline;
        if let Some(left) = remaining_timeout(elapsed_values[i], timeout) {
            let sooner = match deadline {
                Some(least) => left < least,
                None => true,
            };
            if sooner {
                deadline = Some(left);
            }
        }
        proof {
            assert(after =~= before.push(elapsed_values@[i as int]));
            assert(after[i as int] == elapsed_values@[i as int]);
            assert forall|j: int| 0 <= j < before.len() implies #[trigger] before[j] == after[j] by {
            }
            if least is Some {
                let j = choose|j: int|
                    0 <= j < before.len() && #[trigger] before[j] < timeout && least->0 == timeout
                        - before[j];
                assert(after[j] == before[j]);
            }
            assert forall|j: int| 0 <= j < after.len() && #[trigger] after[j] < timeout implies
            deadline is Some && deadline->0 <= timeout - after[j] by {
                if j < i {
                    assert(before[j] == after[j]);
                }
            }
        }
        i += 1;
    }
    assert(elapsed_values@.take(i as int) =~= elapsed_values@);
    deadline
}

/// There is only one deadline, it is never zero, it is less than the timeout where every
/// connection has been released for some time, and there is none exactly where nothing was
/// released or the time of everything is over.
pub proof fn deadlines_are_unique(elapsed: Seq<u64>, timeout: u64, a: Option<u64>, b: Option<u64>)
    requires
        is_deadline(elapsed, timeout, a),
        is_deadline(elapsed, timeout, b),
    ensures
        a == b,
        a matches Some(left) ==> 0 < left <= timeout,
        (forall|i: int| 0 <= i < elapsed.len() ==> #[trigger] elapsed[i] > 0) ==> (a matches Some(
            left,
        ) ==> left < timeout),
        a is None <==> (forall|i: int| 0 <= i < elapsed.len() ==> #[trigger] elapsed[i] >= timeout),
{
    if a is Some && b is Some {
        let i = choose|i: int|
            0 <= i < elapsed.len() && #[trigger] elapsed[i] < timeout && a->0 == timeout
                - elapsed[i];
        let j = choose|j: int|
            0 <= j < elapsed.len() && #[trigger] elapsed[j] < timeout && b->0 == timeout
                - elapsed[j];
        assert(elapsed[i] < timeout && elapsed[j] < timeout);
    }
}

/// How long something released at `since` has been.
pub open spec fn released_for(since: u64, now: u64) -> int {
    if now > since {
        now - since
    } else {
        0
    }
}

/// Whether `deadline` is how long to sleep for the sockets `released`, each with the time of
/// its release: the least that is left for any of them. There is none where nothing is kept.
pub open spec fn is_sleep(released: Map<u64, u64>, now: u64, deadline: Option<u64>) -> bool {
    match deadline {
        Some(left) => {
            &&& exists|id: u64| #[trigger]
                released.contains_key(id) && left == TIMEOUT_NS - released_for(released[id], now)
            &&& forall|id: u64| #[trigger]
                released.contains_key(id) ==> left <= TIMEOUT_NS - released_for(released[id], now)
        },
        None => released == Map::<u64, u64>::empty(),
    }
}

/// Whether the time of a socket that was released at `since` is over.
pub open spec fn is_over(since: u64, now: u64) -> bool {
    released_for(since, now) >= TIMEOUT_NS
}

/// Whether `id` is among the first `n` of `entries`, with its time over.
spec fn over_among(entries: Seq<(&u64, &u64)>, n: int, id: u64, now: u64) -> bool {
    exists|i: int|
        0 <= i < n && *(#[trigger] entries[i]).0 == id && is_over(*entries[i].1, now)
}

/// The sockets whose time is not over.
pub open spec fn kept(released: Map<u64, u64>, now: u64) -> Map<u64, u64> {
    Map::new(
        |id: u64| released.contains_key(id) && !is_over(released[id], now),
        |id: u64| released[id],
    )
}

/// The released sockets, each with the time of its release.
pub struct Reaper {
    released_map: HashMap<u64, u64>,
}

impl View for Reaper {
    type V = Map<u64, u64>;

    closed spec fn view(&self) -> Map<u64, u64> {
        self.released_map@
    }
}

impl Reaper {
    pub fn new() -> (res: Reaper)
        ensures
            res@ == Map::<u64, u64>::empty(),
    {
        broadcast use vstd::std_specs::hash::group_hash_axioms;

        Reaper { released_map: HashMap::new() }
    }

    /// The socket `id` was released at `now`.
    pub fn release(&mut self, id: u64, now: u64)
        ensures
            final(self)@ == old(self)@.insert(id, now),
    {
        broadcast use vstd::std_specs::hash::group_hash_axioms;

        self.released_map.insert(id, now);
    }

    /// The sockets whose time is over at `now`, and the least that is left for any other.
    fn survey(&self, now: u64) -> (res: (Vec<u64>, Option<u64>))
        ensures
            forall|id: u64| #[trigger]
                res.0@.contains(id) <==> self@.contains_key(id) && is_over(self@[id], now),
            res.1 matches Some(left) ==> left > 0 && exists|id: u64| #[trigger]
                self@.contains_key(id) && left == TIMEOUT_NS - released_for(self@[id], now),
            forall|id: u64| #[trigger]
                self@.contains_key(id) && !is_over(self@[id], now) ==> res.1 is Some && res.1->0
                    <= TIMEOUT_NS - released_for(self@[id], now),
    {
        broadcast use vstd::std_specs::hash::group_hash_axioms;

        let mut expired: Vec<u64> = Vec::new();
        let mut least: Option<u64> = None;
        for entry in it: self.released_map.iter()
            invariant
                it.seq() == vstd::std_specs::iter::IteratorSpec::remaining(
                    &vstd::std_specs::hash::spec_hash_map_iter(&self.released_map),
                ),
                forall|id: u64| #[trigger]
                    expired@.contains(id) <==> over_among(it.seq(), it.index(), id, now),
                least matches Some(left) ==> left > 0 && exists|id: u64| #[trigger]
                    self@.contains_key(id) && left == TIMEOUT_NS - released_for(self@[id], now),
                forall|i: int|
                    0 <= i < it.index() && !is_over(*(#[trigger] it.seq()[i]).1, now)
                        ==> least is Some && least->0 <= TIMEOUT_NS - released_for(
                        *it.seq()[i].1,
                        now,
                    ),
        {
            let (id, since) = entry;
            let ghost before = expired@;
            let elapsed: u64 = now.saturating_sub(*since);
            let over = elapsed >= TIMEOUT_NS;
            match remaining_timeout(elapsed, TIMEOUT_NS) {
                Some(left) => {
                    let sooner = match least {
                        Some(least) => left < least,
                        None => true,
                    };
                    if sooner {
                        least = Some(left);
                    }
                },
                None => {
                    expired.push(*id);
                },
            }
            proof {
                let n = it.index();
                assert(it.seq()[n] == entry);
                assert(over == is_over(*since, now));
                assert(self@.contains_key(*id) && self@[*id] == *since);
                assert forall|t: u64| #[trigger]
                    over_among(it.seq(), n + 1, t, now) <==> over_among(it.seq(), n, t, now) || (
                over && t == *id) by {
                    if over_among(it.seq(), n, t, now) {
                        let i = choose|i: int|
                            0 <= i < n && *(#[trigger] it.seq()[i]).0 == t && is_over(
                                *it.seq()[i].1,
                                now,
                            );
                        assert(*it.seq()[i].0 == t);
                    }
                }
                assert forall|t: u64| #[trigger]
                    expired@.contains(t) <==> before.contains(t) || (over && t == *id) by {
                    if over {
                        assert(expired@[before.len() as int] == *id);
                        if before.contains(t) {
                            assert(expired@[before.index_of(t)] == t);
                        }
                    }
                }
            }
        }
        (expired, least)
    }

    /// The sockets whose time is over at `now`, which are forgotten, and how long to sleep.
    pub fn check_expiration(&mut self, now: u64) -> (res: (Vec<u64>, Option<u64>))
        ensures
            forall|id: u64| #[trigger]
                res.0@.contains(id) <==> old(self)@.contains_key(id) && is_over(
                    old(self)@[id],
                    now,
                ),
            final(self)@ == kept(old(self)@, now),
            is_sleep(final(self)@, now, res.1),
            res.1 matches Some(left) ==> 0 < left <= TIMEOUT_NS,
    {
        broadcast use vstd::std_specs::hash::group_hash_axioms;

        let (expired, timeout) = self.survey(now);
        let ghost all = self@;
        let mut i: usize = 0;
        while i < expired.len()
            invariant
                i <= expired@.len(),
                self@ == all.remove_keys(expired@.take(i as int).to_set()),
            decreases expired@.len() - i,
        {
            self.released_map.remove(&expired[i]);
            proof {
                let done = expired@.take(i as int);
                let more = expired@.take(i + 1);
                assert(more =~= done.push(expired@[i as int]));
                assert forall|id: u64| more.contains(id) <==> done.contains(id) || id
                    == expired@[i as int] by {
                    assert(more[i as int] == expired@[i as int]);
                    if done.contains(id) {
                        assert(more[done.index_of(id)] == id);
                    }
                }
                assert(self@ =~= all.remove_keys(more.to_set()));
            }
            i += 1;
        }
        proof {
            assert(expired@.take(i as int) =~= expired@);
            assert(self@ =~= kept(all, now));
        }
        proof {
            if let Some(left) = timeout {
                let id = choose|id: u64| #[trigger]
                    all.contains_key(id) && left == TIMEOUT_NS - released_for(all[id], now);
                assert(self@.contains_key(id));
            } else {
                assert(self@ =~= Map::<u64, u64>::empty());
            }
        }
        (expired, timeout)
    }
}

/// A socket that was just released is kept, and one that was kept for its whole time is not.
pub proof fn released_sockets_go_in_time(released: Map<u64, u64>, id: u64, now: u64, later: u64)
    ensures
        kept(released.insert(id, now), later).contains_key(id) <==> released_for(now, later)
            < TIMEOUT_NS,
        kept(released.insert(id, now), now).contains_key(id),
{
}

/// A socket is kept for less than five seconds from its release and is over from then on. What
/// was released later than now counts as released now.
pub proof fn sockets_are_kept_for_five_seconds(released: Map<u64, u64>, now: u64, id: u64)
    ensures
        kept(released, now).contains_key(id) <==> released.contains_key(id) && now < released[id]
            + 5_000_000_000,
        kept(released, now).contains_key(id) ==> kept(released, now)[id] == released[id],
        released.contains_key(id) ==> (is_over(released[id], now) <==> now >= released[id]
            + 5_000_000_000),
{
}

/// A sleep ends when the first of the sockets is over, and not before: at that time one is, and
/// at any time before it none is.
pub proof fn sleeps_end_in_time(released: Map<u64, u64>, now: u64, left: u64, later: u64)
    requires
        is_sleep(released, now, Some(left)),
        now <= later,
        forall|id: u64| #[trigger] released.contains_key(id) ==> released[id] <= now,
    ensures
        later < now + left ==> forall|id: u64| #[trigger]
            released.contains_key(id) ==> !is_over(released[id], later),
        later >= now + left ==> exists|id: u64| #[trigger]
            released.contains_key(id) && is_over(released[id], later),
{
    let id = choose|id: u64| #[trigger]
        released.contains_key(id) && left == TIMEOUT_NS - released_for(released[id], now);
    assert(released.contains_key(id));
}

} // verus!
