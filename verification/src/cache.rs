use vstd::prelude::*;
use crate::tile::TileAddress;
use crate::mesh::TileMesh;

verus! {

/// Failure classes of the tile pipeline.
#[derive(Clone, Copy, PartialEq, Eq, Structural, Debug)]
pub enum TileError {
    /// The requested address violates the grid invariant.
    InvalidAddress,
    /// The transport collaborator failed to deliver the payload.
    Network,
    /// The payload was malformed at the framing level.
    Decode,
}

/// Lifecycle state of one cache entry; an address without an entry is idle.
pub enum EntryState {
    Fetching,
    Cached(TileMesh),
    Failed(TileError),
}

pub struct CacheEntry {
    pub addr: TileAddress,
    pub state: EntryState,
}

/// Memoization table from tile address to fetch state, with single-flight
/// deduplication of concurrent requests.
pub struct TileCache {
    pub entries: Vec<CacheEntry>,
}

/// The state recorded for `a`: the first matching entry wins.
pub open spec fn lookup(s: Seq<CacheEntry>, a: TileAddress) -> Option<EntryState>
    decreases s.len(),
{
    if s.len() == 0 {
        None
    } else if s[0].addr == a {
        Some(s[0].state)
    } else {
        lookup(s.drop_first(), a)
    }
}

pub proof fn lemma_lookup_first(s: Seq<CacheEntry>, a: TileAddress, j: int)
    requires
        0 <= j < s.len(),
        s[j].addr == a,
        forall|k: int| 0 <= k < j ==> (#[trigger] s[k]).addr != a,
    ensures
        lookup(s, a) == Some(s[j].state),
    decreases j,
{
    if j > 0 {
        lemma_lookup_first(s.drop_first(), a, j - 1);
    }
}

pub proof fn lemma_lookup_none(s: Seq<CacheEntry>, a: TileAddress)
    requires
        forall|k: int| 0 <= k < s.len() ==> (#[trigger] s[k]).addr != a,
    ensures
        lookup(s, a) is None,
    decreases s.len(),
{
    if s.len() > 0 {
        lemma_lookup_none(s.drop_first(), a);
    }
}

pub proof fn lemma_lookup_update(s: Seq<CacheEntry>, a: TileAddress, j: int, e: CacheEntry)
    requires
        0 <= j < s.len(),
        s[j].addr == a,
        forall|k: int| 0 <= k < j ==> (#[trigger] s[k]).addr != a,
        e.addr == a,
    ensures
        lookup(s.update(j, e), a) == Some(e.state),
        forall|b: TileAddress| b != a ==> lookup(s.update(j, e), b) == lookup(s, b),
    decreases j,
{
    if j == 0 {
        assert(s.update(0, e).drop_first() =~= s.drop_first());
        assert forall|b: TileAddress| b != a implies lookup(s.update(j, e), b) == lookup(s, b) by {
            assert(s.update(0, e)[0] == e);
            assert(lookup(s.update(0, e), b) == lookup(s.update(0, e).drop_first(), b));
            assert(lookup(s, b) == lookup(s.drop_first(), b));
        }
    } else {
        assert(s.update(j, e).drop_first() =~= s.drop_first().update(j - 1, e));
        lemma_lookup_update(s.drop_first(), a, j - 1, e);
        assert forall|b: TileAddress| b != a implies lookup(s.update(j, e), b) == lookup(s, b) by {
            assert(s.update(j, e)[0] == s[0]);
            if s[0].addr != b {
                assert(lookup(s.update(j, e), b) == lookup(s.drop_first().update(j - 1, e), b));
                assert(lookup(s, b) == lookup(s.drop_first(), b));
            }
        }
    }
}

pub proof fn lemma_lookup_push(s: Seq<CacheEntry>, a: TileAddress, e: CacheEntry)
    requires
        forall|k: int| 0 <= k < s.len() ==> (#[trigger] s[k]).addr != a,
        e.addr == a,
    ensures
        lookup(s.push(e), a) == Some(e.state),
        forall|b: TileAddress| b != a ==> lookup(s.push(e), b) == lookup(s, b),
    decreases s.len(),
{
    if s.len() == 0 {
        assert(s.push(e)[0] == e);
        assert(s.push(e).drop_first() =~= Seq::<CacheEntry>::empty());
        assert forall|b: TileAddress| b != a implies lookup(s.push(e), b) == lookup(s, b) by {
            assert(lookup(s.push(e).drop_first(), b) is None);
        }
    } else {
        assert(s.push(e)[0] == s[0]);
        assert(s.push(e).drop_first() =~= s.drop_first().push(e));
        lemma_lookup_push(s.drop_first(), a, e);
        assert forall|b: TileAddress| b != a implies lookup(s.push(e), b) == lookup(s, b) by {
            if s[0].addr != b {
                assert(lookup(s.push(e), b) == lookup(s.drop_first().push(e), b));
                assert(lookup(s, b) == lookup(s.drop_first(), b));
            }
        }
    }
}

/// What a request for an address asks of the caller.
#[derive(Clone, Copy, PartialEq, Eq, Structural, Debug)]
pub enum RequestOutcome {
    /// The address violates the grid invariant; nothing was or will be
    /// fetched for it.
    Invalid,
    /// A mesh is already cached; read it with `cached_mesh`.
    Ready,
    /// The entry moved to `Fetching`: the caller must perform the one fetch
    /// and report its result through `complete`.
    StartFetch,
    /// A fetch for this address is already in flight; await its completion.
    AwaitInFlight,
}

/// The outcome `request` decides for address `a` against cache `c`.
pub open spec fn spec_plan(c: TileCache, a: TileAddress) -> RequestOutcome {
    if !a.wf() {
        RequestOutcome::Invalid
    } else {
        match lookup(c.entries@, a) {
            Some(EntryState::Cached(m)) => RequestOutcome::Ready,
            Some(EntryState::Fetching) => RequestOutcome::AwaitInFlight,
            _ => RequestOutcome::StartFetch,
        }
    }
}

impl TileCache {
    pub fn new() -> (c: TileCache)
        ensures
            c.entries@.len() == 0,
    {
        TileCache { entries: Vec::new() }
    }

    /// Index of the entry for `a`, if one exists.
    fn find_entry(&self, a: &TileAddress) -> (r: Option<usize>)
        ensures
            (match r {
                Some(j) => j < self.entries@.len() && self.entries@[j as int].addr == *a && (
                forall|k: int| 0 <= k < j ==> (#[trigger] self.entries@[k]).addr != *a) && lookup(
                    self.entries@,
                    *a,
                ) == Some(self.entries@[j as int].state),
                None => lookup(self.entries@, *a) is None && (forall|k: int|
                    0 <= k < self.entries@.len() ==> (#[trigger] self.entries@[k]).addr != *a),
            }),
    {
        let mut j: usize = 0;
        while j < self.entries.len()
            invariant
                j <= self.entries@.len(),
                forall|k: int| 0 <= k < j ==> (#[trigger] self.entries@[k]).addr != *a,
            decreases self.entries@.len() - j,
        {
            if self.entries[j].addr == *a {
                proof {
                    lemma_lookup_first(self.entries@, *a, j as int);
                }
                return Some(j);
            }
            j = j + 1;
        }
        proof {
            lemma_lookup_none(self.entries@, *a);
        }
        None
    }

    /// Decides what must happen for address `a`: rejects an invalid address
    /// before anything else, returns a hit without touching the table,
    /// coalesces onto an in-flight fetch, and otherwise (no entry, or a
    /// failed entry being retried) moves the entry to `Fetching` so that
    /// exactly one caller performs the fetch.
    pub fn request(&mut self, a: &TileAddress) -> (r: RequestOutcome)
        ensures
            r == spec_plan(*old(self), *a),
            r != RequestOutcome::StartFetch ==> *final(self) == *old(self),
            r == RequestOutcome::StartFetch ==> lookup(final(self).entries@, *a) == Some(
                EntryState::Fetching,
            ) && (forall|b: TileAddress|
                b != *a ==> lookup(final(self).entries@, b) == lookup(old(self).entries@, b)),
    {
        if !a.is_valid() {
            return RequestOutcome::Invalid;
        }
        match self.find_entry(a) {
            Some(j) => {
                let is_cached = (matches!(self.entries[j].state, EntryState::Cached(_)));
                let is_fetching = (matches!(self.entries[j].state, EntryState::Fetching));
                if is_cached {
                    RequestOutcome::Ready
                } else if is_fetching {
                    RequestOutcome::AwaitInFlight
                } else {
                    let ghost olds = self.entries@;
                    proof {
                        lemma_lookup_update(
                            olds,
                            *a,
                            j as int,
                            CacheEntry { addr: *a, state: EntryState::Fetching },
                        );
                    }
                    self.entries.set(j, CacheEntry { addr: *a, state: EntryState::Fetching });
                    RequestOutcome::StartFetch
                }
            },
            None => {
                let ghost olds = self.entries@;
                proof {
                    lemma_lookup_push(
                        olds,
                        *a,
                        CacheEntry { addr: *a, state: EntryState::Fetching },
                    );
                }
                self.entries.push(CacheEntry { addr: *a, state: EntryState::Fetching });
                RequestOutcome::StartFetch
            },
        }
    }

    /// The cached mesh for `a`, when its entry is in the `Cached` state.
    pub fn cached_mesh(&self, a: &TileAddress) -> (r: Option<&TileMesh>)
        ensures
            (match r {
                Some(m) => lookup(self.entries@, *a) == Some(EntryState::Cached(*m)),
                None => !(lookup(self.entries@, *a) matches Some(EntryState::Cached(_))),
            }),
    {
        match self.find_entry(a) {
            None => None,
            Some(j) => {
                match &self.entries[j].state {
                    EntryState::Cached(m) => Some(m),
                    _ => None,
                }
            },
        }
    }

    /// Resolves the in-flight fetch for `a`: the entry becomes `Cached` on
    /// success and `Failed` on error, and every waiter observes that same
    /// terminal state.  A completion for an address that is not fetching is
    /// ignored.
    pub fn complete(&mut self, a: &TileAddress, res: Result<TileMesh, TileError>)
        ensures
            lookup(old(self).entries@, *a) == Some(EntryState::Fetching) ==> lookup(
                final(self).entries@,
                *a,
            ) == Some(
                (match res {
                    Ok(m) => EntryState::Cached(m),
                    Err(e) => EntryState::Failed(e),
                }),
            ) && (forall|b: TileAddress|
                b != *a ==> lookup(final(self).entries@, b) == lookup(old(self).entries@, b)),
            lookup(old(self).entries@, *a) != Some(EntryState::Fetching) ==> *final(self) == *old(
                self,
            ),
    {
        match self.find_entry(a) {
            None => {},
            Some(j) => {
                let is_fetching = (matches!(self.entries[j].state, EntryState::Fetching));
                if is_fetching {
                    let st = (match res {
                        Ok(m) => EntryState::Cached(m),
                        Err(e) => EntryState::Failed(e),
                    });
                    let ghost olds = self.entries@;
                    let ghost gst = st;
                    proof {
                        lemma_lookup_update(
                            olds,
                            *a,
                            j as int,
                            CacheEntry { addr: *a, state: gst },
                        );
                    }
                    self.entries.set(j, CacheEntry { addr: *a, state: st });
                }
            },
        }
    }
}

/// Law: while a fetch for an address is in flight, a further request for
/// the same address coalesces onto it and never starts a second fetch; the
/// table is left unchanged by such a request.
pub proof fn lemma_single_flight(c: TileCache, a: TileAddress)
    requires
        a.wf(),
        lookup(c.entries@, a) == Some(EntryState::Fetching),
    ensures
        spec_plan(c, a) == RequestOutcome::AwaitInFlight,
        spec_plan(c, a) != RequestOutcome::StartFetch,
{
}

/// Law: a failed entry is not a cached failure: a fresh request for that
/// address starts a new fetch attempt.
pub proof fn lemma_failed_entry_is_retried(c: TileCache, a: TileAddress, e: TileError)
    requires
        a.wf(),
        lookup(c.entries@, a) == Some(EntryState::Failed(e)),
    ensures
        spec_plan(c, a) == RequestOutcome::StartFetch,
{
}

/// Law: an invalid address is rejected before any entry or fetch exists for
/// it, whatever the cache holds.
pub proof fn lemma_invalid_address_never_fetches(c: TileCache, a: TileAddress)
    requires
        !a.wf(),
    ensures
        spec_plan(c, a) == RequestOutcome::Invalid,
        spec_plan(c, a) != RequestOutcome::StartFetch,
{
}

} // verus!
