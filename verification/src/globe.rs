use vstd::prelude::*;
use crate::tile::TileAddress;
use crate::cache::{lookup, spec_plan, EntryState, RequestOutcome, TileCache, TileError};
use crate::decode::{decode_tile, spec_tile};
use crate::mesh::{build_tile_mesh, single_ring_tile, TileMesh, MAX_BUILD_ZOOM};
use vstd::arithmetic::power2::pow2;

verus! {

/// Orchestrator over the tile cache: turns raw coordinates into addresses,
/// plans fetches, and turns fetched payloads into cached meshes.  The
/// embedding application performs the actual network transfer between
/// `request_tile` and `complete_tile`.
pub struct Globe {
    pub token: String,
    pub cache: TileCache,
}

impl Globe {
    /// A fresh globe with an empty cache; `token` is the access credential
    /// the transport collaborator sends with each fetch.
    pub fn new(token: String) -> (g: Globe)
        ensures
            g.token@ == token@,
            g.cache.entries@.len() == 0,
    {
        Globe { token, cache: TileCache::new() }
    }

    /// Plans the tile at (x, y, zoom): validates the address first and then
    /// asks the cache, so an invalid address never reaches the fetch path.
    pub fn request_tile(&mut self, x: i64, y: i64, zoom: i64) -> (r: (TileAddress, RequestOutcome))
        ensures
            r.0 == (TileAddress { x, y, zoom }),
            r.1 == spec_plan(old(self).cache, r.0),
            final(self).token == old(self).token,
            r.1 != RequestOutcome::StartFetch ==> final(self).cache == old(self).cache,
            r.1 == RequestOutcome::StartFetch ==> lookup(final(self).cache.entries@, r.0) == Some(
                EntryState::Fetching,
            ) && (forall|b: TileAddress|
                b != r.0 ==> lookup(final(self).cache.entries@, b) == lookup(
                    old(self).cache.entries@,
                    b,
                )),
    {
        let addr = TileAddress::new(x, y, zoom);
        let plan = self.cache.request(&addr);
        (addr, plan)
    }

    /// The cached mesh for an address, when its fetch has succeeded.
    pub fn cached_mesh(&self, addr: &TileAddress) -> (r: Option<&TileMesh>)
        ensures
            (match r {
                Some(m) => lookup(self.cache.entries@, *addr) == Some(EntryState::Cached(*m)),
                None => !(lookup(self.cache.entries@, *addr) matches Some(EntryState::Cached(_))),
            }),
    {
        self.cache.cached_mesh(addr)
    }

    /// Resolves the in-flight fetch for `addr` with what the transport
    /// returned: a network failure or a malformed payload moves the entry
    /// to `Failed`; a payload that decodes is tessellated and cached, and
    /// every waiter observes that same terminal state.
    pub fn complete_tile(&mut self, addr: &TileAddress, bytes: Result<Vec<u8>, TileError>)
        requires
            addr.wf(),
            addr.zoom <= MAX_BUILD_ZOOM,
        ensures
            final(self).token == old(self).token,
            lookup(old(self).cache.entries@, *addr) == Some(EntryState::Fetching) ==> (match bytes {
                Err(e) => lookup(final(self).cache.entries@, *addr) == Some(EntryState::Failed(e)),
                Ok(b) => {
                    &&& spec_tile(b@) is None ==> lookup(final(self).cache.entries@, *addr) == Some(
                        EntryState::Failed(TileError::Decode),
                    )
                    &&& spec_tile(b@) is Some ==> (lookup(final(self).cache.entries@, *addr)
                        matches Some(EntryState::Cached(m)) && m.wf())
                    &&& spec_tile(b@) matches Some(t) ==> (single_ring_tile(t) ==> (lookup(
                        final(self).cache.entries@,
                        *addr,
                    ) matches Some(EntryState::Cached(m)) && {
                        let ring = t.layers[0].features[0].paths[0].points;
                        let ext = t.layers[0].extent;
                        &&& m.vertices@.len() == ring.len()
                        &&& m.triangles@.len() <= ring.len() - 2
                        &&& forall|k: int|
                            0 <= k < ring.len() ==> ((#[trigger] m.vertices@[k]).nx as int
                                == addr.x * (ext as int) + ring[k].0 && m.vertices@[k].ny as int
                                == addr.y * (ext as int) + ring[k].1 && m.vertices@[k].denom == ext
                                * pow2(addr.zoom as nat))
                    }))
                },
            }) && (forall|b: TileAddress|
                b != *addr ==> lookup(final(self).cache.entries@, b) == lookup(
                    old(self).cache.entries@,
                    b,
                )),
            lookup(old(self).cache.entries@, *addr) != Some(EntryState::Fetching) ==> *final(self)
                == *old(self),
    {
        match bytes {
            Err(e) => {
                self.cache.complete(addr, Err(e));
            },
            Ok(payload) => {
                match decode_tile(&payload) {
                    Err(_) => {
                        self.cache.complete(addr, Err(TileError::Decode));
                    },
                    Ok(tile) => {
                        let mesh = build_tile_mesh(&tile, addr);
                        self.cache.complete(addr, Ok(mesh));
                    },
                }
            },
        }
    }
}

} // verus!
