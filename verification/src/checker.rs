//! The in-memory membership store: the authoritative set of blocklisted
//! addresses, replaced wholesale on each refresh.
//!
//! [`BlocklistCheckerStore`] is the sequential core with exact contracts;
//! [`SharedBlocklist`] shares one such store between the query path and the
//! refresh task behind a verified reader/writer lock, so every lookup
//! observes the set either before or after a given replacement, never
//! between.

use vstd::prelude::*;
use vstd::rwlock::RwLock;
use vstd::seq_lib::lemma_seq_contains_after_push;

verus! {

/// Answers membership queries against the current set.
pub trait BlocklistChecker {
    spec fn spec_set(&self) -> Set<u32>;

    /// Whether `ip` is in the current set.
    fn contains(&self, ip: u32) -> (r: bool)
        ensures
            r == self.spec_set().contains(ip),
    ;
}

/// Replaces the current set wholesale.
pub trait BlocklistStore {
    spec fn spec_set(&self) -> Set<u32>;

    /// Atomically replaces the whole set with the deduplicated contents of
    /// `addresses`.
    fn set_addresses(&mut self, addresses: &Vec<u32>)
        ensures
            final(self).spec_set() == addresses@.to_set(),
    ;
}

/// The membership store: an unordered set of addresses with no duplicates.
pub struct BlocklistCheckerStore {
    addresses: Vec<u32>,
}

impl View for BlocklistCheckerStore {
    type V = Set<u32>;

    closed spec fn view(&self) -> Set<u32> {
        self.addresses@.to_set()
    }
}

impl BlocklistCheckerStore {
    /// The store never holds an address twice.
    pub closed spec fn wf(&self) -> bool {
        self.addresses@.no_duplicates()
    }

    /// Builds the store from what persistence loaded: the loaded addresses
    /// on success, the empty set when the backing file was missing or
    /// unreadable.
    pub fn new(loaded: Option<Vec<u32>>) -> (r: Self)
        ensures
            r.wf(),
            match loaded {
                Some(v) => r@ == v@.to_set(),
                None => r@ == Set::<u32>::empty(),
            },
    {
        match loaded {
            Some(v) => {
                let r = BlocklistCheckerStore { addresses: dedup(&v) };
                r
            },
            None => {
                let r = BlocklistCheckerStore { addresses: Vec::new() };
                proof {
                    assert(r@ =~= Set::<u32>::empty());
                }
                r
            },
        }
    }

    /// The stored addresses, one occurrence each, for persistence.
    pub fn addresses(&self) -> (r: Vec<u32>)
        ensures
            r@.no_duplicates(),
            r@.to_set() == self@,
    {
        dedup(&self.addresses)
    }
}

impl BlocklistChecker for BlocklistCheckerStore {
    open spec fn spec_set(&self) -> Set<u32> {
        self@
    }

    fn contains(&self, ip: u32) -> (r: bool)
        ensures
            r == self@.contains(ip),
    {
        vec_contains(&self.addresses, ip)
    }
}

impl BlocklistStore for BlocklistCheckerStore {
    open spec fn spec_set(&self) -> Set<u32> {
        self@
    }

    fn set_addresses(&mut self, addresses: &Vec<u32>)
        ensures
            final(self).wf(),
            final(self)@ == addresses@.to_set(),
    {
        self.addresses = dedup(addresses);
    }
}

/// What every store value behind the shared lock satisfies.
pub open spec fn store_wf_pred() -> spec_fn(BlocklistCheckerStore) -> bool {
    |s: BlocklistCheckerStore| s.wf()
}

/// The membership store shared between the query path and the refresh
/// task: one store behind a verified reader/writer lock. Each lookup runs
/// against a single coherent store value, so it observes the set either
/// before or after a given replacement, never between.
pub struct SharedBlocklist {
    lock: RwLock<BlocklistCheckerStore, spec_fn(BlocklistCheckerStore) -> bool>,
}

impl SharedBlocklist {
    #[verifier::type_invariant]
    spec fn locked_wf(&self) -> bool {
        self.lock.pred() == store_wf_pred()
    }

    /// Builds the shared store from what persistence loaded, as
    /// [`BlocklistCheckerStore::new`] does.
    pub fn new(loaded: Option<Vec<u32>>) -> Self {
        let store = BlocklistCheckerStore::new(loaded);
        SharedBlocklist { lock: RwLock::new(store, Ghost(store_wf_pred())) }
    }

    /// Whether `ip` is in the set, as one atomically observed store value
    /// answers it: the lock hands the reader one coherent snapshot, so the
    /// answer is never a mix of two replacements.
    pub fn contains(&self, ip: u32) -> bool {
        let handle = self.lock.acquire_read();
        let r = handle.borrow().contains(ip);
        handle.release_read();
        r
    }

    /// Atomically replaces the whole set with the deduplicated contents of
    /// `addresses` and returns the installed snapshot, one occurrence of
    /// each address, for persistence after the swap.
    pub fn set_addresses(&self, addresses: &Vec<u32>) -> (snapshot: Vec<u32>)
        ensures
            snapshot@.no_duplicates(),
            snapshot@.to_set() == addresses@.to_set(),
    {
        proof {
            use_type_invariant(&*self);
        }
        let (mut store, handle) = self.lock.acquire_write();
        store.set_addresses(addresses);
        let snapshot = store.addresses();
        handle.release_write(store);
        snapshot
    }
}

/// Whether `x` occurs in `v`.
fn vec_contains(v: &Vec<u32>, x: u32) -> (r: bool)
    ensures
        r == v@.contains(x),
{
    let mut i: usize = 0;
    while i < v.len()
        invariant
            i <= v.len(),
            forall|k: int| 0 <= k < i ==> v@[k] != x,
        decreases v.len() - i,
    {
        if v[i] == x {
            return true;
        }
        i = i + 1;
    }
    false
}

/// The distinct elements of `addresses`, first occurrences in order.
fn dedup(addresses: &Vec<u32>) -> (r: Vec<u32>)
    ensures
        r@.no_duplicates(),
        r@.to_set() == addresses@.to_set(),
{
    let mut r: Vec<u32> = Vec::new();
    let mut i: usize = 0;
    proof {
        assert(r@.to_set() =~= addresses@.take(0).to_set());
    }
    while i < addresses.len()
        invariant
            i <= addresses.len(),
            r@.no_duplicates(),
            r@.to_set() == addresses@.take(i as int).to_set(),
        decreases addresses.len() - i,
    {
        let a = addresses[i];
        let ghost prev = r@;
        let present = vec_contains(&r, a);
        if !present {
            r.push(a);
        }
        proof {
            assert(addresses@.take(i + 1) =~= addresses@.take(i as int).push(a));
            prev.lemma_push_to_set_commute(a);
            addresses@.take(i as int).lemma_push_to_set_commute(a);
            if present {
                assert(prev.to_set().insert(a) =~= prev.to_set());
            } else {
                lemma_seq_contains_after_push(prev, a, a);
            }
        }
        i = i + 1;
    }
    proof {
        assert(addresses@.take(addresses@.len() as int) =~= addresses@);
    }
    r
}

} // verus!
