//! Upkeep of one topic's mesh: peers that can no longer be reached leave,
//! and reachable ones join until the mesh has its degree.

use vstd::prelude::*;
use crate::bytes::bytes_eq;
use crate::bytes::copy_bytes;
use crate::bytes::holds;
use crate::bytes::lemma_filter_distinct;
use crate::bytes::lemma_views_push;
use crate::bytes::views;

verus! {

/// A mesh names no peer twice and never the node itself.
pub open spec fn mesh_ok(peers: Seq<Seq<u8>>, local: Seq<u8>) -> bool {
    peers.no_duplicates() && !peers.contains(local)
}

/// The test that a peer is among `reachable`.
pub open spec fn among(reachable: Seq<Seq<u8>>) -> spec_fn(Seq<u8>) -> bool {
    |p: Seq<u8>| reachable.contains(p)
}

/// A mesh after `candidates` were offered to it in their order: each one
/// joins that is neither the node itself nor in the mesh already, until the
/// mesh has `degree` peers.
pub open spec fn filled(
    mesh: Seq<Seq<u8>>,
    candidates: Seq<Seq<u8>>,
    local: Seq<u8>,
    degree: nat,
) -> Seq<Seq<u8>>
    decreases candidates.len(),
{
    if candidates.len() == 0 || mesh.len() >= degree {
        mesh
    } else {
        let c = candidates[0];
        let next = if c != local && !mesh.contains(c) {
            mesh.push(c)
        } else {
            mesh
        };
        filled(next, candidates.skip(1), local, degree)
    }
}

/// A mesh after its upkeep: the peers that are still reachable stay, in
/// their order, and reachable peers fill it up.
pub open spec fn maintained(
    mesh: Seq<Seq<u8>>,
    reachable: Seq<Seq<u8>>,
    local: Seq<u8>,
    degree: nat,
) -> Seq<Seq<u8>> {
    filled(mesh.filter(among(reachable)), reachable, local, degree)
}

/// The topics after the upkeep of every mesh.
pub open spec fn upkeep(
    topics: Map<Seq<u8>, Seq<Seq<u8>>>,
    reachable: Seq<Seq<u8>>,
    local: Seq<u8>,
    degree: nat,
) -> Map<Seq<u8>, Seq<Seq<u8>>> {
    topics.map_values(|m: Seq<Seq<u8>>| maintained(m, reachable, local, degree))
}

/// The upkeep of one mesh.
pub fn maintain(peers: &Vec<Vec<u8>>, reachable: &Vec<Vec<u8>>, local: &Vec<u8>, degree: usize) -> (out:
    Vec<Vec<u8>>)
    requires
        mesh_ok(views(peers@), local@),
    ensures
        views(out@) == maintained(views(peers@), views(reachable@), local@, degree as nat),
        mesh_ok(views(out@), local@),
{
    let ghost all = views(peers@);
    let ghost near = views(reachable@);
    let ghost pred = among(near);
    let mut out: Vec<Vec<u8>> = Vec::new();
    assert(views(out@) =~= all.take(0).filter(pred)) by {
        reveal(Seq::filter);
    }
    let mut i: usize = 0;
    while i < peers.len()
        invariant
            i <= peers.len(),
            all == views(peers@),
            near == views(reachable@),
            pred == among(near),
            views(out@) == all.take(i as int).filter(pred),
        decreases peers.len() - i,
    {
        proof {
            reveal(Seq::filter);
            assert(all.take(i + 1).drop_last() =~= all.take(i as int));
            assert(all.take(i + 1).last() == peers@[i as int]@);
        }
        if holds(reachable, &peers[i]) {
            let ghost prev = out@;
            let item = copy_bytes(&peers[i]);
            out.push(item);
            proof {
                lemma_views_push(prev, item);
            }
        }
        i += 1;
    }
    proof {
        assert(all.take(peers.len() as int) =~= all);
        lemma_filter_distinct(all, pred);
        if all.filter(pred).contains(local@) {
            all.lemma_filter_contains_rev(pred, local@);
        }
    }
    let ghost start = views(out@);
    let mut j: usize = 0;
    assert(near.skip(0) =~= near);
    while j < reachable.len() && out.len() < degree
        invariant
            j <= reachable.len(),
            near == views(reachable@),
            mesh_ok(views(out@), local@),
            filled(views(out@), near.skip(j as int), local@, degree as nat) == filled(
                start,
                near,
                local@,
                degree as nat,
            ),
        decreases reachable.len() - j,
    {
        let ghost cur = views(out@);
        proof {
            assert(near.skip(j as int)[0] == reachable@[j as int]@);
            assert(near.skip(j as int).skip(1) =~= near.skip(j + 1));
        }
        if !bytes_eq(&reachable[j], local) && !holds(&out, &reachable[j]) {
            let ghost prev = out@;
            let item = copy_bytes(&reachable[j]);
            out.push(item);
            proof {
                lemma_views_push(prev, item);
                assert forall|a: int, b: int|
                    0 <= a < cur.push(item@).len() && 0 <= b < cur.push(item@).len() && a
                        != b implies cur.push(item@)[a] != cur.push(item@)[b] by {
                    if a < cur.len() && b < cur.len() {
                    } else if a < cur.len() {
                        assert(cur.contains(cur[a]));
                    } else if b < cur.len() {
                        assert(cur.contains(cur[b]));
                    }
                }
                if cur.push(item@).contains(local@) {
                    let k = choose|k: int|
                        0 <= k < cur.push(item@).len() && cur.push(item@)[k] == local@;
                    if k < cur.len() {
                        assert(cur.contains(cur[k]));
                    }
                }
            }
        }
        j += 1;
    }
    out
}

/// What filling up does to a mesh: nobody leaves, only candidates join, the
/// mesh grows no further than to its degree, and every candidate but the
/// node itself has joined where the mesh stays below its degree.
pub proof fn lemma_filled(
    mesh: Seq<Seq<u8>>,
    candidates: Seq<Seq<u8>>,
    local: Seq<u8>,
    degree: nat,
)
    ensures
        forall|p: Seq<u8>|
            mesh.contains(p) ==> #[trigger] filled(mesh, candidates, local, degree).contains(p),
        forall|p: Seq<u8>| #[trigger]
            filled(mesh, candidates, local, degree).contains(p) ==> mesh.contains(p)
                || candidates.contains(p),
        filled(mesh, candidates, local, degree).len() <= degree || filled(
            mesh,
            candidates,
            local,
            degree,
        ).len() == mesh.len(),
        filled(mesh, candidates, local, degree).len() < degree ==> forall|p: Seq<u8>|
            candidates.contains(p) && p != local ==> #[trigger] filled(
                mesh,
                candidates,
                local,
                degree,
            ).contains(p),
    decreases candidates.len(),
{
    if candidates.len() == 0 || mesh.len() >= degree {
    } else {
        let c = candidates[0];
        let next = if c != local && !mesh.contains(c) {
            mesh.push(c)
        } else {
            mesh
        };
        let rest = candidates.skip(1);
        let out = filled(mesh, candidates, local, degree);
        lemma_filled(next, rest, local, degree);
        assert(out == filled(next, rest, local, degree));
        assert forall|p: Seq<u8>| mesh.contains(p) implies next.contains(p) by {
            let k = choose|k: int| 0 <= k < mesh.len() && mesh[k] == p;
            assert(next[k] == p);
        }
        assert(next.contains(c) || c == local) by {
            if c != local && !mesh.contains(c) {
                assert(next[mesh.len() as int] == c);
            }
        }
        assert forall|p: Seq<u8>| next.contains(p) implies mesh.contains(p) || p == c by {
            let k = choose|k: int| 0 <= k < next.len() && next[k] == p;
            if k < mesh.len() {
                assert(mesh[k] == p);
            }
        }
        assert(candidates.contains(c));
        assert forall|p: Seq<u8>| rest.contains(p) implies candidates.contains(p) by {
            let k = choose|k: int| 0 <= k < rest.len() && rest[k] == p;
            assert(candidates[k + 1] == p);
        }
        assert forall|p: Seq<u8>| candidates.contains(p) implies p == c || rest.contains(p) by {
            let k = choose|k: int| 0 <= k < candidates.len() && candidates[k] == p;
            if k > 0 {
                assert(rest[k - 1] == p);
            }
        }
    }
}

/// What upkeep does to a mesh. Every peer of the new mesh is reachable.
/// Every reachable peer of the old mesh is in the new one. The new mesh is
/// no larger than its degree, or than the old mesh. Where it stays below its
/// degree, it holds every reachable peer but the node itself.
pub proof fn lemma_maintained(
    mesh: Seq<Seq<u8>>,
    reachable: Seq<Seq<u8>>,
    local: Seq<u8>,
    degree: nat,
)
    ensures
        forall|p: Seq<u8>| #[trigger]
            maintained(mesh, reachable, local, degree).contains(p) ==> reachable.contains(p),
        forall|p: Seq<u8>|
            mesh.contains(p) && reachable.contains(p) ==> #[trigger] maintained(
                mesh,
                reachable,
                local,
                degree,
            ).contains(p),
        maintained(mesh, reachable, local, degree).len() <= degree || maintained(
            mesh,
            reachable,
            local,
            degree,
        ).len() <= mesh.len(),
        maintained(mesh, reachable, local, degree).len() < degree ==> forall|p: Seq<u8>|
            reachable.contains(p) && p != local ==> #[trigger] maintained(
                mesh,
                reachable,
                local,
                degree,
            ).contains(p),
{
    let pred = among(reachable);
    let stay = mesh.filter(pred);
    lemma_filled(stay, reachable, local, degree);
    mesh.lemma_filter_len(pred);
    assert forall|p: Seq<u8>| stay.contains(p) implies reachable.contains(p) by {
        let k = choose|k: int| 0 <= k < stay.len() && stay[k] == p;
        mesh.lemma_filter_pred(pred, k);
    }
    assert forall|p: Seq<u8>| mesh.contains(p) && reachable.contains(p) implies stay.contains(
        p,
    ) by {
        let k = choose|k: int| 0 <= k < mesh.len() && mesh[k] == p;
        mesh.lemma_filter_contains(pred, k);
    }
}

} // verus!
