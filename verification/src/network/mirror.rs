//! What the server sends to a joining peer is what the peer then holds.

use vstd::prelude::*;
use crate::client::{absorbed, absorbed_column, applied, wrap_body, wrap_mesh};
use crate::network::message::Columns;
use crate::query::{bodies_column, meshes_column};
use crate::server::is_snapshot;
use crate::store::{consistent, evict, Component, Components, EntityId};

verus! {

/// Whether `k` is among the first `n` entities of the walk.
pub open spec fn seen(order: Seq<u64>, n: int, k: u64) -> bool {
    exists|j: int| 0 <= j < n && order[j] == k
}

/// What a peer that knew nothing holds once it has taken in the bodies of the
/// first `nb` entities of the server's walk and the meshes of the first `nm`.
pub open spec fn mirrored(
    store: Map<u64, Components>,
    order: Seq<u64>,
    nb: int,
    nm: int,
) -> Map<u64, Components> {
    Map::new(
        |k: u64|
            (seen(order, nb, k) && store[k].physics is Some) || (seen(order, nm, k)
                && store[k].mesh is Some),
        |k: u64|
            Components {
                physics: if seen(order, nb, k) {
                    store[k].physics
                } else {
                    None
                },
                mesh: if seen(order, nm, k) {
                    store[k].mesh
                } else {
                    None
                },
                ..Components::spec_empty()
            },
    )
}

/// Columns that agree on their first `n` entries are taken in alike as far as
/// those entries go.
proof fn lemma_absorbed_prefix<T>(
    store: Map<u64, Components>,
    a: Seq<(EntityId, T)>,
    b: Seq<(EntityId, T)>,
    wrap: spec_fn(T) -> Component,
    n: int,
)
    requires
        n <= a.len(),
        n <= b.len(),
        forall|i: int| 0 <= i < n ==> a[i] == b[i],
    ensures
        absorbed_column(store, a, wrap, n) == absorbed_column(store, b, wrap, n),
    decreases n,
{
    if n > 0 {
        lemma_absorbed_prefix(store, a, b, wrap, n - 1);
    }
}

/// An entity seen among the first `n` of a walk is an entity of the walk,
/// and one seen among `n + 1` was seen among `n` or is the last.
proof fn lemma_seen(order: Seq<u64>, n: int, k: u64)
    requires
        0 <= n < order.len(),
    ensures
        seen(order, n, k) ==> order.contains(k) && seen(order, n + 1, k),
        seen(order, n + 1, k) <==> seen(order, n, k) || order[n] == k,
        order.no_duplicates() && seen(order, n, k) ==> order[n] != k,
{
    if seen(order, n, k) {
        let j = choose|j: int| 0 <= j < n && order[j] == k;
        assert(0 <= j < n + 1 && order[j] == k);
    }
    if seen(order, n + 1, k) {
        let j = choose|j: int| 0 <= j < n + 1 && order[j] == k;
        if j < n {
            assert(seen(order, n, k));
        }
    }
    if order[n] == k {
        assert(0 <= n < n + 1 && order[n] == k);
    }
}

/// Taking in an entity that the peer does not know displaces nothing, as long
/// as the peer holds entities of the server only: the server has no two
/// entities in one slot.
proof fn lemma_nothing_evicted(
    store: Map<u64, Components>,
    order: Seq<u64>,
    held: Map<u64, Components>,
    k: u64,
)
    requires
        consistent(store, order),
        store.contains_key(k),
        !held.contains_key(k),
        forall|j: u64| held.contains_key(j) ==> store.contains_key(j),
    ensures
        evict(held, k) == held,
{
    assert(evict(held, k) =~= held);
}

/// The bodies of the first `n` entities of the server's walk, taken in by a
/// peer that knew nothing.
proof fn lemma_bodies_mirrored(store: Map<u64, Components>, order: Seq<u64>, n: int)
    requires
        consistent(store, order),
        0 <= n <= order.len(),
    ensures
        absorbed_column(
            Map::empty(),
            bodies_column(store, order, false, n),
            wrap_body(),
            bodies_column(store, order, false, n).len() as int,
        ) == mirrored(store, order, n, 0),
    decreases n,
{
    let column = bodies_column(store, order, false, n);
    let taken = absorbed_column(Map::empty(), column, wrap_body(), column.len() as int);
    if n == 0 {
        assert(taken =~= mirrored(store, order, 0, 0));
    } else {
        let earlier = bodies_column(store, order, false, n - 1);
        let held = absorbed_column(Map::empty(), earlier, wrap_body(), earlier.len() as int);
        lemma_bodies_mirrored(store, order, n - 1);
        let k = order[n - 1];
        assert(order.contains(k));
        assert forall|j: u64| true implies (seen(order, n, j) <==> seen(order, n - 1, j) || k
            == j) && (seen(order, n - 1, j) ==> j != k && order.contains(j)) by {
            lemma_seen(order, n - 1, j);
        }
        match store[k].physics {
            Some(obj) => {
                lemma_absorbed_prefix(
                    Map::empty(),
                    earlier,
                    column,
                    wrap_body(),
                    earlier.len() as int,
                );
                assert forall|j: u64| held.contains_key(j) implies store.contains_key(j) by {
                    lemma_seen(order, n - 1, j);
                    assert(seen(order, n - 1, j));
                    assert(order.contains(j));
                }
                lemma_nothing_evicted(store, order, held, k);
                assert(taken == absorbed(held, EntityId { bits: k }, Component::Body(obj)));
                assert(taken =~= mirrored(store, order, n, 0));
            },
            None => {
                assert(taken =~= mirrored(store, order, n, 0));
            },
        }
    }
}

/// The meshes of the first `n` entities of the server's walk, taken in by a
/// peer that holds the server's bodies.
proof fn lemma_meshes_mirrored(store: Map<u64, Components>, order: Seq<u64>, n: int)
    requires
        consistent(store, order),
        0 <= n <= order.len(),
    ensures
        absorbed_column(
            mirrored(store, order, order.len() as int, 0),
            meshes_column(store, order, n),
            wrap_mesh(),
            meshes_column(store, order, n).len() as int,
        ) == mirrored(store, order, order.len() as int, n),
    decreases n,
{
    let all = order.len() as int;
    let base = mirrored(store, order, all, 0);
    let column = meshes_column(store, order, n);
    let taken = absorbed_column(base, column, wrap_mesh(), column.len() as int);
    if n == 0 {
        assert(taken =~= mirrored(store, order, all, 0));
    } else {
        let earlier = meshes_column(store, order, n - 1);
        let held = absorbed_column(base, earlier, wrap_mesh(), earlier.len() as int);
        lemma_meshes_mirrored(store, order, n - 1);
        let k = order[n - 1];
        assert(order.contains(k));
        assert(seen(order, all, k));
        assert forall|j: u64| true implies (seen(order, n, j) <==> seen(order, n - 1, j) || k
            == j) && (seen(order, n - 1, j) ==> j != k && order.contains(j)) by {
            lemma_seen(order, n - 1, j);
        }
        assert forall|j: u64| seen(order, all, j) implies order.contains(j) by {
            let i = choose|i: int| 0 <= i < all && order[i] == j;
        }
        match store[k].mesh {
            Some(mesh) => {
                lemma_absorbed_prefix(base, earlier, column, wrap_mesh(), earlier.len() as int);
                if !held.contains_key(k) {
                    assert forall|j: u64| held.contains_key(j) implies store.contains_key(j) by {
                        assert(seen(order, all, j) || seen(order, n - 1, j));
                        if seen(order, n - 1, j) {
                            lemma_seen(order, n - 1, j);
                        }
                        assert(order.contains(j));
                    }
                    lemma_nothing_evicted(store, order, held, k);
                }
                assert(taken == absorbed(held, EntityId { bits: k }, Component::Mesh(mesh)));
                assert(taken =~= mirrored(store, order, all, n));
            },
            None => {
                assert(taken =~= mirrored(store, order, all, n));
            },
        }
    }
}

/// A peer that joins holds what the server holds. If a peer that knew nothing
/// takes in the columns that the server sends to a joining peer, then it
/// holds exactly the entities of the server that have a body or a mesh, each
/// under the server's handle and with the server's body and mesh: no pair of
/// entity and component is lost, changed or made up on the way.
pub proof fn lemma_snapshot_is_mirrored(
    columns: Columns,
    store: Map<u64, Components>,
    order: Seq<u64>,
)
    requires
        consistent(store, order),
        is_snapshot(columns, store, order),
    ensures
        forall|k: u64|
            applied(Map::empty(), columns).contains_key(k) <==> store.contains_key(k) && (
            store[k].physics is Some || store[k].mesh is Some),
        forall|k: u64|
            applied(Map::empty(), columns).contains_key(k) ==> applied(Map::empty(), columns)[k]
                == (Components {
                physics: store[k].physics,
                mesh: store[k].mesh,
                ..Components::spec_empty()
            }),
{
    let all = order.len() as int;
    lemma_bodies_mirrored(store, order, all);
    lemma_meshes_mirrored(store, order, all);
    assert(applied(Map::empty(), columns) == mirrored(store, order, all, all));
    assert forall|k: u64| seen(order, all, k) <==> store.contains_key(k) by {
        if seen(order, all, k) {
            let i = choose|i: int| 0 <= i < all && order[i] == k;
            assert(order.contains(k));
        }
        if store.contains_key(k) {
            assert(order.contains(k));
            let i = choose|i: int| 0 <= i < order.len() && order[i] == k;
            assert(0 <= i < all && order[i] == k);
        }
    }
}

} // verus!
