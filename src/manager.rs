//! The registry of relay allocations, keyed by five-tuple, with their deadlines.
use vstd::prelude::*;
use crate::five_tuple::{FiveTuple, SocketAddress};

verus! {

/// Milliseconds in a second.
pub const MILLIS_PER_SECOND: u64 = 1000;

/// One relay binding. Times are milliseconds on the server's clock; the lifetime
/// is in seconds.
#[derive(Debug, Clone, Copy, PartialEq, Eq, Structural)]
pub struct Allocation {
    pub five_tuple: FiveTuple,
    pub relay_addr: SocketAddress,
    pub created_at: u64,
    pub lifetime: u64,
    pub expires_at: u64,
}

/// Why a manager operation was refused.
#[derive(Debug, Clone, Copy, PartialEq, Eq, Structural)]
pub enum AllocationError {
    /// An allocation for the five-tuple is already active.
    AllocationExists,
    /// An allocation must be created with a positive lifetime.
    ZeroLifetime,
    /// No allocation is active for the five-tuple.
    AllocationNotFound,
}

/// What a refresh did.
#[derive(Debug, Clone, Copy, PartialEq, Eq, Structural)]
pub enum Refreshed {
    /// The allocation stays, with the new lifetime and deadline.
    Extended(Allocation),
    /// A zero lifetime removed the allocation; its relay is to be closed.
    Deleted(Allocation),
}

/// `lifetime` seconds after `now`, or the end of the clock if that is later.
pub open spec fn deadline(now: u64, lifetime: u64) -> u64 {
    if now + lifetime * MILLIS_PER_SECOND > u64::MAX {
        u64::MAX
    } else {
        (now + lifetime * MILLIS_PER_SECOND) as u64
    }
}

/// The allocation that a successful create registers.
pub open spec fn new_allocation(five_tuple: FiveTuple, relay_addr: SocketAddress, lifetime: u64, now: u64) -> Allocation {
    Allocation { five_tuple, relay_addr, created_at: now, lifetime, expires_at: deadline(now, lifetime) }
}

/// Create: refused where the five-tuple is taken or the lifetime is zero.
pub open spec fn create_step(
    m: Map<FiveTuple, Allocation>,
    five_tuple: FiveTuple,
    relay_addr: SocketAddress,
    lifetime: u64,
    now: u64,
) -> (Result<Allocation, AllocationError>, Map<FiveTuple, Allocation>) {
    if m.contains_key(five_tuple) {
        (Err(AllocationError::AllocationExists), m)
    } else if lifetime == 0 {
        (Err(AllocationError::ZeroLifetime), m)
    } else {
        let a = new_allocation(five_tuple, relay_addr, lifetime, now);
        (Ok(a), m.insert(five_tuple, a))
    }
}

/// Delete: the allocation removed, if there was one.
pub open spec fn delete_step(m: Map<FiveTuple, Allocation>, five_tuple: FiveTuple) -> (Option<Allocation>, Map<FiveTuple, Allocation>) {
    if m.contains_key(five_tuple) {
        (Some(m[five_tuple]), m.remove(five_tuple))
    } else {
        (None, m)
    }
}

/// Refresh: a zero lifetime deletes, another one sets a new deadline.
pub open spec fn refresh_step(m: Map<FiveTuple, Allocation>, five_tuple: FiveTuple, lifetime: u64, now: u64) -> (Result<Refreshed, AllocationError>, Map<FiveTuple, Allocation>) {
    if !m.contains_key(five_tuple) {
        (Err(AllocationError::AllocationNotFound), m)
    } else if lifetime == 0 {
        (Ok(Refreshed::Deleted(m[five_tuple])), m.remove(five_tuple))
    } else {
        let a = Allocation { lifetime, expires_at: deadline(now, lifetime), ..m[five_tuple] };
        (Ok(Refreshed::Extended(a)), m.insert(five_tuple, a))
    }
}

/// Expiry of one five-tuple at time `now`: removed only if its own deadline has passed.
pub open spec fn expire_step(m: Map<FiveTuple, Allocation>, five_tuple: FiveTuple, now: u64) -> (Option<Allocation>, Map<FiveTuple, Allocation>) {
    if m.contains_key(five_tuple) && m[five_tuple].expires_at <= now {
        (Some(m[five_tuple]), m.remove(five_tuple))
    } else {
        (None, m)
    }
}

/// No five-tuple occurs twice.
pub open spec fn keys_unique(s: Seq<Allocation>) -> bool {
    forall|i: int, j: int|
        0 <= i < s.len() && 0 <= j < s.len() && #[trigger] s[i].five_tuple == #[trigger] s[j].five_tuple ==> i == j
}

/// The allocations of a list, by five-tuple.
pub open spec fn to_map(s: Seq<Allocation>) -> Map<FiveTuple, Allocation>
    decreases s.len(),
{
    if s.len() == 0 {
        Map::empty()
    } else {
        to_map(s.drop_last()).insert(s.last().five_tuple, s.last())
    }
}

proof fn lemma_to_map_dom(s: Seq<Allocation>, k: FiveTuple)
    ensures
        to_map(s).contains_key(k) <==> exists|j: int| 0 <= j < s.len() && #[trigger] s[j].five_tuple == k,
    decreases s.len(),
{
    if s.len() > 0 {
        lemma_to_map_dom(s.drop_last(), k);
        if to_map(s.drop_last()).contains_key(k) {
            let j = choose|j: int| 0 <= j < s.drop_last().len() && #[trigger] s.drop_last()[j].five_tuple == k;
            assert(s[j].five_tuple == k);
        }
        if exists|j: int| 0 <= j < s.len() && #[trigger] s[j].five_tuple == k {
            let j = choose|j: int| 0 <= j < s.len() && #[trigger] s[j].five_tuple == k;
            if j < s.len() - 1 {
                assert(s.drop_last()[j].five_tuple == k);
            }
        }
    }
}

proof fn lemma_to_map_value(s: Seq<Allocation>, j: int)
    requires
        keys_unique(s),
        0 <= j < s.len(),
    ensures
        to_map(s).contains_key(s[j].five_tuple),
        to_map(s)[s[j].five_tuple] == s[j],
    decreases s.len(),
{
    if j < s.len() - 1 {
        assert(s.drop_last()[j] == s[j]);
        lemma_to_map_value(s.drop_last(), j);
    }
}

proof fn lemma_to_map_remove(s: Seq<Allocation>, i: int)
    requires
        keys_unique(s),
        0 <= i < s.len(),
    ensures
        keys_unique(s.remove(i)),
        to_map(s.remove(i)) == to_map(s).remove(s[i].five_tuple),
    decreases s.len(),
{
    let k = s[i].five_tuple;
    assert(keys_unique(s.remove(i))) by {
        assert forall|a: int, b: int|
            0 <= a < s.remove(i).len() && 0 <= b < s.remove(i).len() && #[trigger] s.remove(i)[a].five_tuple
                == #[trigger] s.remove(i)[b].five_tuple implies a == b by {
            let a2 = if a < i { a } else { a + 1 };
            let b2 = if b < i { b } else { b + 1 };
            assert(s[a2].five_tuple == s[b2].five_tuple);
        }
    }
    if i == s.len() - 1 {
        assert(s.remove(i) =~= s.drop_last());
        lemma_to_map_dom(s.drop_last(), k);
        if to_map(s.drop_last()).contains_key(k) {
            let j = choose|j: int| 0 <= j < s.drop_last().len() && #[trigger] s.drop_last()[j].five_tuple == k;
            assert(s[j].five_tuple == k);
        }
        assert(to_map(s.remove(i)) =~= to_map(s).remove(k));
    } else {
        let d = s.drop_last();
        assert(keys_unique(d)) by {
            assert forall|a: int, b: int|
                0 <= a < d.len() && 0 <= b < d.len() && #[trigger] d[a].five_tuple == #[trigger] d[b].five_tuple implies a
                    == b by {
                assert(s[a].five_tuple == s[b].five_tuple);
            }
        }
        assert(d[i] == s[i]);
        lemma_to_map_remove(d, i);
        assert(s.remove(i).drop_last() =~= d.remove(i));
        assert(s.remove(i).last() == s.last());
        assert(s.last().five_tuple != k);
        assert(to_map(s.remove(i)) =~= to_map(s).remove(k));
    }
}

/// The active allocations. At most one per five-tuple.
#[derive(Debug)]
pub struct Manager {
    allocations: Vec<Allocation>,
}

impl View for Manager {
    type V = Map<FiveTuple, Allocation>;

    closed spec fn view(&self) -> Map<FiveTuple, Allocation> {
        to_map(self.allocations@)
    }
}

impl Manager {
    /// Each five-tuple has at most one allocation.
    pub closed spec fn wf(&self) -> bool {
        keys_unique(self.allocations@)
    }

    /// A manager with no allocations.
    pub fn new() -> (r: Manager)
        ensures
            r.wf(),
            r@ == Map::<FiveTuple, Allocation>::empty(),
    {
        Manager { allocations: Vec::new() }
    }

    /// Where the allocation for `five_tuple` stands in the list, if anywhere.
    fn position(&self, five_tuple: &FiveTuple) -> (r: Option<usize>)
        requires
            self.wf(),
        ensures
            match r {
                Some(i) => i < self.allocations@.len() && self.allocations@[i as int].five_tuple == *five_tuple,
                None => !self@.contains_key(*five_tuple),
            },
    {
        let mut i: usize = 0;
        while i < self.allocations.len()
            invariant
                i <= self.allocations@.len(),
                forall|j: int| 0 <= j < i ==> #[trigger] self.allocations@[j].five_tuple != *five_tuple,
            decreases self.allocations@.len() - i,
        {
            if self.allocations[i].five_tuple == *five_tuple {
                return Some(i);
            }
            i = i + 1;
        }
        proof {
            lemma_to_map_dom(self.allocations@, *five_tuple);
        }
        None
    }

    /// The allocation for `five_tuple`, if one is active.
    pub fn get_allocation(&self, five_tuple: &FiveTuple) -> (r: Option<Allocation>)
        requires
            self.wf(),
        ensures
            r == (if self@.contains_key(*five_tuple) { Some(self@[*five_tuple]) } else { None::<Allocation> }),
    {
        match self.position(five_tuple) {
            Some(i) => {
                proof {
                    lemma_to_map_value(self.allocations@, i as int);
                }
                Some(self.allocations[i])
            },
            None => None,
        }
    }

    /// Takes the allocation at `i` out of the list.
    fn take(&mut self, i: usize) -> (r: Allocation)
        requires
            old(self).wf(),
            i < old(self).allocations@.len(),
        ensures
            final(self).wf(),
            r == old(self).allocations@[i as int],
            old(self)@.contains_key(r.five_tuple),
            old(self)@[r.five_tuple] == r,
            final(self)@ == old(self)@.remove(r.five_tuple),
    {
        proof {
            lemma_to_map_value(self.allocations@, i as int);
            lemma_to_map_remove(self.allocations@, i as int);
        }
        self.allocations.remove(i)
    }

    /// Adds `a`, whose five-tuple has no allocation.
    fn put(&mut self, a: Allocation)
        requires
            old(self).wf(),
            !old(self)@.contains_key(a.five_tuple),
        ensures
            final(self).wf(),
            final(self)@ == old(self)@.insert(a.five_tuple, a),
    {
        let ghost s = self.allocations@;
        proof {
            lemma_to_map_dom(s, a.five_tuple);
        }
        self.allocations.push(a);
        proof {
            assert(self.allocations@.drop_last() =~= s);
            assert forall|x: int, y: int|
                0 <= x < self.allocations@.len() && 0 <= y < self.allocations@.len()
                    && #[trigger] self.allocations@[x].five_tuple == #[trigger] self.allocations@[y].five_tuple implies x
                    == y by {
                if x < s.len() && y < s.len() {
                    assert(s[x].five_tuple == s[y].five_tuple);
                } else if x < s.len() {
                    assert(s[x].five_tuple == a.five_tuple);
                } else if y < s.len() {
                    assert(s[y].five_tuple == a.five_tuple);
                }
            }
        }
    }

    /// Registers an allocation for `five_tuple` on relay address `relay_addr`,
    /// expiring `lifetime` seconds after `now`.
    pub fn create_allocation(&mut self, five_tuple: FiveTuple, relay_addr: SocketAddress, lifetime: u64, now: u64) -> (r:
        Result<Allocation, AllocationError>)
        requires
            old(self).wf(),
        ensures
            final(self).wf(),
            (r, final(self)@) == create_step(old(self)@, five_tuple, relay_addr, lifetime, now),
    {
        let found = self.position(&five_tuple);
        if let Some(i) = found {
            proof {
                lemma_to_map_value(self.allocations@, i as int);
            }
            return Err(AllocationError::AllocationExists);
        }
        if lifetime == 0 {
            return Err(AllocationError::ZeroLifetime);
        }
        let a = Allocation {
            five_tuple,
            relay_addr,
            created_at: now,
            lifetime,
            expires_at: deadline_of(now, lifetime),
        };
        self.put(a);
        Ok(a)
    }

    /// Removes the allocation for `five_tuple` and hands it back so that its
    /// relay can be closed; nothing happens where there is none.
    pub fn delete_allocation(&mut self, five_tuple: &FiveTuple) -> (r: Option<Allocation>)
        requires
            old(self).wf(),
        ensures
            final(self).wf(),
            (r, final(self)@) == delete_step(old(self)@, *five_tuple),
    {
        match self.position(five_tuple) {
            Some(i) => Some(self.take(i)),
            None => None,
        }
    }

    /// Applies a refresh: a zero lifetime removes the allocation, another one
    /// moves its deadline to `lifetime` seconds after `now`, relay unchanged.
    pub fn refresh_allocation(&mut self, five_tuple: &FiveTuple, lifetime: u64, now: u64) -> (r: Result<
        Refreshed,
        AllocationError,
    >)
        requires
            old(self).wf(),
        ensures
            final(self).wf(),
            (r, final(self)@) == refresh_step(old(self)@, *five_tuple, lifetime, now),
    {
        match self.position(five_tuple) {
            None => Err(AllocationError::AllocationNotFound),
            Some(i) => {
                let old_alloc = self.take(i);
                if lifetime == 0 {
                    Ok(Refreshed::Deleted(old_alloc))
                } else {
                    let a = Allocation { lifetime, expires_at: deadline_of(now, lifetime), ..old_alloc };
                    assert(self@.remove(a.five_tuple).insert(a.five_tuple, a) =~= old(self)@.insert(a.five_tuple, a));
                    self.put(a);
                    assert(self@ =~= old(self)@.insert(a.five_tuple, a));
                    Ok(Refreshed::Extended(a))
                }
            },
        }
    }

    /// What an expiry timer for `five_tuple` does when it fires at `now`: the
    /// allocation goes only if its own deadline has passed, so a timer left from
    /// before a refresh, or from an earlier allocation, removes nothing early.
    pub fn expire(&mut self, five_tuple: &FiveTuple, now: u64) -> (r: Option<Allocation>)
        requires
            old(self).wf(),
        ensures
            final(self).wf(),
            (r, final(self)@) == expire_step(old(self)@, *five_tuple, now),
    {
        match self.position(five_tuple) {
            Some(i) => {
                if self.allocations[i].expires_at <= now {
                    Some(self.take(i))
                } else {
                    proof {
                        lemma_to_map_value(self.allocations@, i as int);
                    }
                    None
                }
            },
            None => None,
        }
    }

    /// Shuts the manager down: every allocation is removed and handed back.
    pub fn close(&mut self) -> (r: Vec<Allocation>)
        requires
            old(self).wf(),
        ensures
            final(self).wf(),
            final(self)@ == Map::<FiveTuple, Allocation>::empty(),
            keys_unique(r@),
            to_map(r@) == old(self)@,
    {
        let mut all: Vec<Allocation> = Vec::new();
        std::mem::swap(&mut all, &mut self.allocations);
        all
    }
}

/// Creating an allocation for a five-tuple that already has one fails with
/// `AllocationExists` and changes nothing, whatever the other arguments.
pub proof fn lemma_second_create_conflicts(
    m: Map<FiveTuple, Allocation>,
    five_tuple: FiveTuple,
    relay1: SocketAddress,
    lifetime1: u64,
    now1: u64,
    relay2: SocketAddress,
    lifetime2: u64,
    now2: u64,
)
    requires
        create_step(m, five_tuple, relay1, lifetime1, now1).0 is Ok,
    ensures
        ({
            let m1 = create_step(m, five_tuple, relay1, lifetime1, now1).1;
            create_step(m1, five_tuple, relay2, lifetime2, now2) == (Err::<Allocation, AllocationError>(
                AllocationError::AllocationExists,
            ), m1)
        }),
{
}

/// An allocation created at `now` and never refreshed stays until its deadline
/// and is removed by its expiry at any time from the deadline on, with no delete.
pub proof fn lemma_unrefreshed_allocation_expires(
    m: Map<FiveTuple, Allocation>,
    five_tuple: FiveTuple,
    relay_addr: SocketAddress,
    lifetime: u64,
    now: u64,
    later: u64,
)
    requires
        create_step(m, five_tuple, relay_addr, lifetime, now).0 is Ok,
    ensures
        ({
            let m1 = create_step(m, five_tuple, relay_addr, lifetime, now).1;
            let m2 = expire_step(m1, five_tuple, later).1;
            &&& later >= deadline(now, lifetime) ==> !m2.contains_key(five_tuple)
            &&& later < deadline(now, lifetime) ==> m2 == m1
            &&& now < u64::MAX ==> deadline(now, lifetime) > now
        }),
{
    let m1 = create_step(m, five_tuple, relay_addr, lifetime, now).1;
    assert(m1.contains_key(five_tuple) && m1[five_tuple].expires_at == deadline(now, lifetime));
    assert(lifetime * MILLIS_PER_SECOND >= 1000) by (nonlinear_arith)
        requires
            lifetime >= 1,
    ;
}

/// A refresh and a delete on one five-tuple, in either order, leave no
/// allocation for it; the delete hands back the allocation to close exactly
/// when one was there, and the refresh never brings back a deleted one.
pub proof fn lemma_refresh_delete_leave_nothing(
    m: Map<FiveTuple, Allocation>,
    five_tuple: FiveTuple,
    lifetime: u64,
    now: u64,
)
    ensures
        ({
            let (d1, m1) = delete_step(m, five_tuple);
            let (r2, m2) = refresh_step(m1, five_tuple, lifetime, now);
            &&& r2 == Err::<Refreshed, AllocationError>(AllocationError::AllocationNotFound)
            &&& !m2.contains_key(five_tuple)
            &&& d1 is Some <==> m.contains_key(five_tuple)
        }),
        ({
            let (r1, m1) = refresh_step(m, five_tuple, lifetime, now);
            let (d2, m2) = delete_step(m1, five_tuple);
            &&& !m2.contains_key(five_tuple)
            &&& (d2 is Some <==> r1 matches Ok(Refreshed::Extended(_)))
            &&& forall|k: FiveTuple| k != five_tuple ==> (m2.contains_key(k) <==> m.contains_key(k))
        }),
{
}

/// `lifetime` seconds after `now`, or the end of the clock if that is later.
pub fn deadline_of(now: u64, lifetime: u64) -> (r: u64)
    ensures
        r == deadline(now, lifetime),
{
    if lifetime > (u64::MAX - now) / MILLIS_PER_SECOND {
        proof {
            assert(lifetime * MILLIS_PER_SECOND > u64::MAX - now) by (nonlinear_arith)
                requires
                    lifetime > (u64::MAX - now) / 1000,
            ;
        }
        u64::MAX
    } else {
        proof {
            assert(lifetime * MILLIS_PER_SECOND <= u64::MAX - now) by (nonlinear_arith)
                requires
                    lifetime <= (u64::MAX - now) / 1000,
                    now <= u64::MAX,
            ;
        }
        now + lifetime * MILLIS_PER_SECOND
    }
}

} // verus!
