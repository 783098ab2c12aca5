//! The invitation-acceptance retry state machine.
//!
//! An invitation addressed to the agent's own identity starts a per-room
//! backoff sequence: the first join attempt is made at once; after a failed
//! attempt the caller waits the attempt's current delay and tries again with
//! the delay doubled. The initial delay is 2 time-units; once the doubled
//! delay would exceed the ceiling of 3600 time-units the sequence ends in
//! abandonment with no further attempt. Each room runs its own independent
//! sequence.

use vstd::prelude::*;
use vstd::arithmetic::power2::{pow2, lemma2_to64, lemma_pow2_strictly_increases};

verus! {

/// The delay of the first join attempt, in time-units.
pub const INITIAL_DELAY: u64 = 2;

/// The backoff ceiling, in time-units: a doubled delay above it abandons the
/// sequence.
pub const DELAY_CEILING: u64 = 3600;

/// The transient state of one pending invitation.
#[derive(Debug, PartialEq, Eq)]
pub struct JoinAttempt {
    pub room_id: String,
    pub delay: u64,
    pub attempt_count: u64,
}

/// What follows a failed join attempt.
#[derive(Debug, PartialEq, Eq)]
pub enum JoinStep {
    /// Wait the failed attempt's delay, then try again in this state.
    Retry(JoinAttempt),
    /// The next delay would exceed the ceiling: give up on this room.
    Abandoned,
}

/// The backoff state after `n` failed attempts: the delay of the next
/// attempt, or `None` once the sequence is abandoned.
pub open spec fn backoff_after(n: nat) -> Option<nat>
    decreases n,
{
    if n == 0 {
        Some(INITIAL_DELAY as nat)
    } else {
        match backoff_after((n - 1) as nat) {
            Some(d) => if 2 * d > DELAY_CEILING as nat {
                None
            } else {
                Some(2 * d)
            },
            None => None,
        }
    }
}

impl JoinAttempt {
    /// Well-formedness: the delay is the initial delay doubled once per
    /// failure so far, and has not passed the ceiling.
    pub open spec fn wf(&self) -> bool {
        &&& self.delay == INITIAL_DELAY as nat * pow2(self.attempt_count as nat)
        &&& self.delay <= DELAY_CEILING
    }

    /// The state created when an invitation for the agent's identity is
    /// observed: the first attempt runs at the initial delay.
    pub fn new(room_id: String) -> (a: JoinAttempt)
        ensures
            a.room_id == room_id,
            a.delay == INITIAL_DELAY,
            a.attempt_count == 0,
            a.wf(),
    {
        proof {
            lemma2_to64();
        }
        JoinAttempt { room_id, delay: INITIAL_DELAY, attempt_count: 0 }
    }

    /// A well-formed attempt has failed at most ten times: one more doubling
    /// from the eleventh failure on would stand above the ceiling.
    proof fn lemma_count_bounded(&self)
        requires
            self.wf(),
        ensures
            self.attempt_count <= 10,
    {
        lemma2_to64();
        if self.attempt_count > 11 {
            lemma_pow2_strictly_increases(11, self.attempt_count as nat);
        }
    }

    /// Step the state machine on a failed join attempt: double the delay, or
    /// abandon once the doubled delay would exceed the ceiling. The caller
    /// waits this attempt's delay before acting on a `Retry`.
    pub fn on_failure(&self) -> (r: JoinStep)
        requires
            self.wf(),
        ensures
            2 * self.delay > DELAY_CEILING <==> r matches JoinStep::Abandoned,
            r matches JoinStep::Retry(a) ==> {
                &&& a.room_id@ == self.room_id@
                &&& a.delay == 2 * self.delay
                &&& a.attempt_count == self.attempt_count + 1
                &&& a.wf()
            },
            backoff_after((self.attempt_count + 1) as nat) == match r {
                JoinStep::Retry(a) => Some(a.delay as nat),
                JoinStep::Abandoned => None,
            },
    {
        proof {
            self.lemma_count_bounded();
            lemma_backoff_pending(self.attempt_count as nat);
            lemma2_to64();
        }
        let next = 2 * self.delay;
        if next > DELAY_CEILING {
            JoinStep::Abandoned
        } else {
            JoinStep::Retry(
                JoinAttempt {
                    room_id: self.room_id.clone(),
                    delay: next,
                    attempt_count: self.attempt_count + 1,
                },
            )
        }
    }
}

/// Up to ten failures the sequence is still pending, and the delay of the
/// next attempt is the initial delay doubled once per failure.
pub proof fn lemma_backoff_pending(n: nat)
    requires
        n <= 10,
    ensures
        backoff_after(n) == Some((INITIAL_DELAY as nat * pow2(n)) as nat),
    decreases n,
{
    lemma2_to64();
    if n > 0 {
        lemma_backoff_pending((n - 1) as nat);
        if n < 10 {
            lemma_pow2_strictly_increases(n, 10);
        }
    }
}

/// From the eleventh failure on the sequence is abandoned: no further join
/// attempt is made.
pub proof fn lemma_backoff_abandons(n: nat)
    requires
        n >= 11,
    ensures
        backoff_after(n) == None::<nat>,
    decreases n,
{
    if n == 11 {
        lemma_backoff_pending(10);
        lemma2_to64();
    } else {
        lemma_backoff_abandons((n - 1) as nat);
    }
}

/// Whether the tracked attempts carry pairwise distinct room ids.
pub open spec fn rooms_unique(entries: Seq<JoinAttempt>) -> bool {
    forall|p: int, q: int|
        0 <= p < q < entries.len() ==> entries[p].room_id@ != entries[q].room_id@
}

/// The map denoted by the tracked attempts: room id to (next delay, failures
/// so far).
pub open spec fn attempts_map_of(entries: Seq<JoinAttempt>) -> Map<Seq<char>, (nat, nat)>
    decreases entries.len(),
{
    if entries.len() == 0 {
        Map::empty()
    } else {
        attempts_map_of(entries.drop_last()).insert(
            entries.last().room_id@,
            (entries.last().delay as nat, entries.last().attempt_count as nat),
        )
    }
}

/// A room id absent from every entry is absent from the denoted map.
proof fn lemma_attempts_absent(entries: Seq<JoinAttempt>, k: Seq<char>)
    requires
        forall|j: int| 0 <= j < entries.len() ==> entries[j].room_id@ != k,
    ensures
        !attempts_map_of(entries).contains_key(k),
    decreases entries.len(),
{
    if entries.len() > 0 {
        lemma_attempts_absent(entries.drop_last(), k);
    }
}

/// Under unique room ids, the entry at `i` is what the denoted map holds for
/// its room.
proof fn lemma_attempts_index(entries: Seq<JoinAttempt>, i: int)
    requires
        0 <= i < entries.len(),
        rooms_unique(entries),
    ensures
        attempts_map_of(entries).contains_key(entries[i].room_id@),
        attempts_map_of(entries)[entries[i].room_id@] == (
            entries[i].delay as nat,
            entries[i].attempt_count as nat,
        ),
    decreases entries.len(),
{
    if i < entries.len() - 1 {
        assert(rooms_unique(entries.drop_last()));
        lemma_attempts_index(entries.drop_last(), i);
        assert(entries.last().room_id@ != entries[i].room_id@);
    }
}

/// A room id present in the denoted map is carried by some entry.
proof fn lemma_attempts_contains(entries: Seq<JoinAttempt>, k: Seq<char>)
    requires
        attempts_map_of(entries).contains_key(k),
    ensures
        exists|j: int| 0 <= j < entries.len() && entries[j].room_id@ == k,
{
    if forall|j: int| 0 <= j < entries.len() ==> entries[j].room_id@ != k {
        lemma_attempts_absent(entries, k);
    }
}

/// Removing the entry at `i` removes exactly its room from the denoted map.
proof fn lemma_attempts_remove(entries: Seq<JoinAttempt>, i: int)
    requires
        0 <= i < entries.len(),
        rooms_unique(entries),
    ensures
        attempts_map_of(entries.remove(i)) == attempts_map_of(entries).remove(
            entries[i].room_id@,
        ),
{
    let s = entries.remove(i);
    let k = entries[i].room_id@;
    let m1 = attempts_map_of(entries);
    let m2 = attempts_map_of(s);
    assert(rooms_unique(s));
    assert forall|kk: Seq<char>| #[trigger] m2.contains_key(kk) implies m1.remove(k).contains_key(
        kk,
    ) && m2[kk] == m1.remove(k)[kk] by {
        lemma_attempts_contains(s, kk);
        let j = choose|j: int| 0 <= j < s.len() && s[j].room_id@ == kk;
        let jo: int = if j < i {
            j
        } else {
            j + 1
        };
        assert(entries[jo].room_id@ == kk);
        lemma_attempts_index(s, j);
        lemma_attempts_index(entries, jo);
    }
    assert forall|kk: Seq<char>| #[trigger] m1.remove(k).contains_key(kk) implies m2.contains_key(
        kk,
    ) by {
        lemma_attempts_contains(entries, kk);
        let jo = choose|jo: int| 0 <= jo < entries.len() && entries[jo].room_id@ == kk;
        let j: int = if jo < i {
            jo
        } else {
            jo - 1
        };
        assert(s[j].room_id@ == kk);
        lemma_attempts_index(s, j);
    }
    assert(m2 =~= m1.remove(k));
}

/// How a failed join attempt steps the whole table: the failing room's delay
/// doubles, or the room is dropped once the doubled delay would exceed the
/// ceiling; every other room keeps its state.
pub open spec fn step_failure(m: Map<Seq<char>, (nat, nat)>, room: Seq<char>) -> Map<
    Seq<char>,
    (nat, nat),
> {
    if !m.contains_key(room) {
        m
    } else if 2 * m[room].0 > DELAY_CEILING as nat {
        m.remove(room)
    } else {
        m.insert(room, (2 * m[room].0, (m[room].1 + 1) as nat))
    }
}

/// Concurrent backoff sequences are independent: stepping one room's backoff
/// leaves every other room's tracked state unchanged.
pub proof fn lemma_rooms_independent(
    m: Map<Seq<char>, (nat, nat)>,
    room: Seq<char>,
    other: Seq<char>,
)
    requires
        room != other,
    ensures
        step_failure(m, room).contains_key(other) == m.contains_key(other),
        m.contains_key(other) ==> step_failure(m, room)[other] == m[other],
{
}

/// Whether two strings hold the same characters.
fn string_eq(a: &String, b: &String) -> (r: bool)
    ensures
        r == (a@ == b@),
{
    *a == *b
}

/// What the table reports of a failed join attempt.
#[derive(Debug, PartialEq, Eq)]
pub enum FailureStep {
    /// Wait `wait` time-units, then attempt the join again.
    Retry { wait: u64 },
    /// The sequence is abandoned; the room is no longer tracked.
    Abandoned,
}

/// The per-room invitation state: one independent backoff sequence per
/// invited room, keyed by room id. Only invitations addressed to
/// `own_user_id` create state.
pub struct InviteAutoJoiner {
    pub own_user_id: String,
    pub attempts: Vec<JoinAttempt>,
}

impl InviteAutoJoiner {
    /// Well-formedness: room ids are pairwise distinct and every tracked
    /// attempt is well-formed.
    pub open spec fn wf(&self) -> bool {
        &&& rooms_unique(self.attempts@)
        &&& forall|i: int| 0 <= i < self.attempts@.len() ==> (#[trigger] self.attempts@[i]).wf()
    }

    /// The tracked state: room id to (next delay, failures so far).
    pub open spec fn as_map(&self) -> Map<Seq<char>, (nat, nat)> {
        attempts_map_of(self.attempts@)
    }

    /// A fresh table for the agent identified by `own_user_id`.
    pub fn new(own_user_id: String) -> (j: InviteAutoJoiner)
        ensures
            j.wf(),
            j.own_user_id == own_user_id,
            j.as_map() == Map::<Seq<char>, (nat, nat)>::empty(),
    {
        InviteAutoJoiner { own_user_id, attempts: Vec::new() }
    }

    /// The index of the tracked attempt for `room_id`, if any.
    fn find(&self, room_id: &String) -> (r: Option<usize>)
        ensures
            match r {
                Some(i) => i < self.attempts@.len() && self.attempts@[i as int].room_id@
                    == room_id@,
                None => forall|j: int|
                    0 <= j < self.attempts@.len() ==> self.attempts@[j].room_id@ != room_id@,
            },
    {
        let n = self.attempts.len();
        let mut i: usize = 0;
        while i < n
            invariant
                n == self.attempts@.len(),
                forall|j: int| 0 <= j < i ==> self.attempts@[j].room_id@ != room_id@,
            decreases n - i,
        {
            if string_eq(&self.attempts[i].room_id, room_id) {
                return Some(i);
            }
            i += 1;
        }
        None
    }

    /// React to an observed invitation. Only an invitation whose target
    /// identity equals the agent's own starts a sequence; a room already
    /// tracked keeps its state. Returns whether a sequence was started.
    pub fn on_invitation(&mut self, target: &String, room_id: &String) -> (started: bool)
        requires
            old(self).wf(),
        ensures
            final(self).wf(),
            final(self).own_user_id == old(self).own_user_id,
            started == (target@ == old(self).own_user_id@ && !old(self).as_map().contains_key(
                room_id@,
            )),
            started ==> final(self).as_map() == old(self).as_map().insert(
                room_id@,
                (INITIAL_DELAY as nat, 0nat),
            ),
            !started ==> final(self).as_map() == old(self).as_map(),
    {
        if !string_eq(target, &self.own_user_id) {
            return false;
        }
        match self.find(room_id) {
            Some(_) => {
                proof {
                    let i = choose|i: int|
                        0 <= i < self.attempts@.len() && self.attempts@[i].room_id@ == room_id@;
                    lemma_attempts_index(self.attempts@, i);
                }
                false
            },
            None => {
                proof {
                    lemma_attempts_absent(self.attempts@, room_id@);
                }
                let a = JoinAttempt::new(room_id.clone());
                let ghost before = self.attempts@;
                self.attempts.push(a);
                proof {
                    assert(self.attempts@.drop_last() =~= before);
                }
                true
            },
        }
    }

    /// React to a successful join: the room's sequence ends and its state is
    /// dropped. Returns whether the room was tracked.
    pub fn on_join_success(&mut self, room_id: &String) -> (was_tracked: bool)
        requires
            old(self).wf(),
        ensures
            final(self).wf(),
            final(self).own_user_id == old(self).own_user_id,
            was_tracked == old(self).as_map().contains_key(room_id@),
            was_tracked ==> final(self).as_map() == old(self).as_map().remove(room_id@),
            !was_tracked ==> final(self).as_map() == old(self).as_map(),
    {
        match self.find(room_id) {
            Some(i) => {
                proof {
                    lemma_attempts_index(self.attempts@, i as int);
                    lemma_attempts_remove(self.attempts@, i as int);
                }
                let _ = self.attempts.remove(i);
                true
            },
            None => {
                proof {
                    lemma_attempts_absent(self.attempts@, room_id@);
                }
                false
            },
        }
    }

    /// The next delay tracked for a room, if the room is tracked.
    pub fn delay_of(&self, room_id: &String) -> (r: Option<u64>)
        requires
            self.wf(),
        ensures
            match r {
                Some(d) => self.as_map().contains_key(room_id@) && d as nat == self.as_map()[room_id@].0,
                None => !self.as_map().contains_key(room_id@),
            },
    {
        match self.find(room_id) {
            Some(i) => {
                proof {
                    lemma_attempts_index(self.attempts@, i as int);
                }
                Some(self.attempts[i].delay)
            },
            None => {
                proof {
                    lemma_attempts_absent(self.attempts@, room_id@);
                }
                None
            },
        }
    }

    /// React to a failed join attempt for `room_id`: the room's backoff
    /// steps as [`step_failure`] says, and no other room's state moves. The
    /// caller waits the returned `wait` before attempting again. Returns
    /// `None` when the room is not tracked.
    pub fn on_join_failure(&mut self, room_id: &String) -> (r: Option<FailureStep>)
        requires
            old(self).wf(),
        ensures
            final(self).wf(),
            final(self).own_user_id == old(self).own_user_id,
            r is Some <==> old(self).as_map().contains_key(room_id@),
            final(self).as_map() == step_failure(old(self).as_map(), room_id@),
            r matches Some(step) ==> {
                let entry = old(self).as_map()[room_id@];
                match step {
                    FailureStep::Retry { wait } => wait == entry.0 && 2 * entry.0
                        <= DELAY_CEILING,
                    FailureStep::Abandoned => 2 * entry.0 > DELAY_CEILING,
                }
            },
    {
        match self.find(room_id) {
            Some(i) => {
                proof {
                    lemma_attempts_index(self.attempts@, i as int);
                    lemma_attempts_remove(self.attempts@, i as int);
                }
                let a = self.attempts.remove(i);
                let wait = a.delay;
                match a.on_failure() {
                    JoinStep::Retry(next) => {
                        let ghost before = self.attempts@;
                        self.attempts.push(next);
                        proof {
                            assert(self.attempts@.drop_last() =~= before);
                            assert(self.as_map() =~= step_failure(
                                old(self).as_map(),
                                room_id@,
                            ));
                        }
                        Some(FailureStep::Retry { wait })
                    },
                    JoinStep::Abandoned => Some(FailureStep::Abandoned),
                }
            },
            None => {
                proof {
                    lemma_attempts_absent(self.attempts@, room_id@);
                }
                None
            },
        }
    }
}

} // verus!
