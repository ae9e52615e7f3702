//! The nonces the server has issued, with the time each was issued.
use vstd::prelude::*;
use crate::codec::copy_range;

verus! {

/// Milliseconds for which an issued nonce is accepted.
pub const NONCE_LIFETIME_MS: u64 = 3_600_000;

/// Whether the bytes of `a` and `b` are the same.
pub fn bytes_eq(a: &[u8], b: &[u8]) -> (r: bool)
    ensures
        r == (a@ == b@),
{
    if a.len() != b.len() {
        return false;
    }
    let mut i: usize = 0;
    while i < a.len()
        invariant
            a@.len() == b@.len(),
            i <= a@.len(),
            a@.subrange(0, i as int) == b@.subrange(0, i as int),
        decreases a@.len() - i,
    {
        if a[i] != b[i] {
            assert(a@[i as int] != b@[i as int]);
            return false;
        }
        assert(a@.subrange(0, i + 1) =~= a@.subrange(0, i as int).push(a@[i as int]));
        assert(b@.subrange(0, i + 1) =~= b@.subrange(0, i as int).push(b@[i as int]));
        i = i + 1;
    }
    assert(a@ =~= a@.subrange(0, i as int));
    assert(b@ =~= b@.subrange(0, i as int));
    true
}

/// When `nonce` was last issued, in a list of issues in order.
pub open spec fn issued_at(s: Seq<(Seq<u8>, u64)>, nonce: Seq<u8>) -> Option<u64>
    decreases s.len(),
{
    if s.len() == 0 {
        None
    } else if s.last().0 == nonce {
        Some(s.last().1)
    } else {
        issued_at(s.drop_last(), nonce)
    }
}

/// Whether a nonce issued at `issued` is still accepted at `now`.
pub open spec fn nonce_fresh(issued: u64, now: u64) -> bool {
    now < issued || now - issued < NONCE_LIFETIME_MS
}

/// One issue of a nonce.
#[derive(Debug)]
pub struct NonceEntry {
    pub nonce: Vec<u8>,
    pub issued_at: u64,
}

/// The issued nonces, oldest first.
#[derive(Debug)]
pub struct NonceStore {
    entries: Vec<NonceEntry>,
}

impl View for NonceStore {
    type V = Seq<(Seq<u8>, u64)>;

    closed spec fn view(&self) -> Seq<(Seq<u8>, u64)> {
        self.entries@.map_values(|e: NonceEntry| (e.nonce@, e.issued_at))
    }
}

impl NonceStore {
    pub fn new() -> (r: NonceStore)
        ensures
            r@ == Seq::<(Seq<u8>, u64)>::empty(),
    {
        let r = NonceStore { entries: Vec::new() };
        assert(r@ =~= Seq::<(Seq<u8>, u64)>::empty());
        r
    }

    /// Records that `nonce` was issued at `now`.
    pub fn insert(&mut self, nonce: &[u8], now: u64)
        ensures
            final(self)@ == old(self)@.push((nonce@, now)),
    {
        let ghost old_entries = self.entries@;
        let copy = copy_range(nonce, 0, nonce.len());
        assert(copy@ =~= nonce@);
        self.entries.push(NonceEntry { nonce: copy, issued_at: now });
        assert forall|k: int| 0 <= k < self@.len() implies #[trigger] self@[k] == old(self)@.push((nonce@, now))[k] by {
            if k < old_entries.len() {
                assert(self.entries@[k] == old_entries[k]);
            }
        }
        assert(self@ =~= old(self)@.push((nonce@, now)));
    }

    /// When `nonce` was last issued, if ever.
    pub fn issued_at(&self, nonce: &[u8]) -> (r: Option<u64>)
        ensures
            r == issued_at(self@, nonce@),
    {
        let mut i: usize = self.entries.len();
        assert(self@.subrange(0, i as int) =~= self@);
        while i > 0
            invariant
                i <= self.entries@.len(),
                self@.len() == self.entries@.len(),
                issued_at(self@, nonce@) == issued_at(self@.subrange(0, i as int), nonce@),
            decreases i,
        {
            let ghost pre = self@.subrange(0, i as int);
            assert(pre.last() == self@[i - 1]);
            assert(pre.drop_last() =~= self@.subrange(0, i - 1));
            let e = &self.entries[i - 1];
            if bytes_eq(e.nonce.as_slice(), nonce) {
                return Some(e.issued_at);
            }
            i = i - 1;
        }
        None
    }
}

} // verus!
