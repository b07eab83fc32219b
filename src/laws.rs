use vstd::prelude::*;
use crate::manager::{RtmpServerManager, create_post, remove_post, issued};
use crate::ports::{in_range, is_lowest_free};

verus! {

/// No two live instances share a port, and every identifier that `create`
/// hands out is new: held by no instance that was live before, and by no
/// other instance of the same call.
pub proof fn lemma_uniqueness(
    old: RtmpServerManager,
    n: nat,
    new: RtmpServerManager,
    r: Seq<(u16, String)>,
)
    requires
        old.wf(),
        create_post(old, n, new, r),
    ensures
        forall|a: u16, b: u16|
            new.ports().contains_key(a) && new.ports().contains_key(b) && a != b ==> new.ports()[a]
                != new.ports()[b],
        forall|i: int| 0 <= i < r.len() ==> !old.ports().contains_key(#[trigger] r[i].0),
        forall|i: int, j: int|
            0 <= i < j < r.len() ==> r[i].0 != r[j].0 && new.ports()[r[i].0] != new.ports()[r[j].0],
{
    assert forall|i: int| 0 <= i < r.len() implies !old.ports().contains_key(#[trigger] r[i].0) by {
        if old.ports().contains_key(r[i].0) {
            assert(r[i].0 < old.next_id());
        }
    }
    assert forall|i: int, j: int| 0 <= i < j < r.len() implies r[i].0 != r[j].0 && new.ports()[r[i].0]
        != new.ports()[r[j].0] by {
        assert(r[i].0 == old.next_id() + i);
        assert(r[j].0 == old.next_id() + j);
        assert(new.ports().contains_key(r[i].0));
        assert(new.ports().contains_key(r[j].0));
    }
}

/// Identifiers only grow: within one `create` they increase, each exceeds
/// every identifier live before the call, and the next identifier to be
/// issued exceeds them all.
pub proof fn lemma_ids_increase(
    old: RtmpServerManager,
    n: nat,
    new: RtmpServerManager,
    r: Seq<(u16, String)>,
)
    requires
        old.wf(),
        create_post(old, n, new, r),
    ensures
        forall|i: int, j: int| 0 <= i < j < r.len() ==> r[i].0 < r[j].0,
        forall|i: int, id: u16|
            0 <= i < r.len() && #[trigger] old.ports().contains_key(id) ==> id < #[trigger] r[i].0,
        forall|i: int| 0 <= i < r.len() ==> old.next_id() <= #[trigger] r[i].0 < new.next_id(),
        old.next_id() <= new.next_id(),
{
    assert forall|i: int, j: int| 0 <= i < j < r.len() implies r[i].0 < r[j].0 by {
        assert(r[i].0 == old.next_id() + i);
        assert(r[j].0 == old.next_id() + j);
    }
    assert forall|i: int, id: u16| 0 <= i < r.len() && #[trigger] old.ports().contains_key(id) implies id
        < #[trigger] r[i].0 by {
        assert(r[i].0 == old.next_id() + i);
    }
}

/// Identifiers are never reused across a removal: those of a `create` that
/// follows `remove` exceed those of every earlier `create`.
pub proof fn lemma_ids_increase_across_remove(
    m0: RtmpServerManager,
    n1: nat,
    m1: RtmpServerManager,
    r1: Seq<(u16, String)>,
    id: u16,
    m2: RtmpServerManager,
    n2: nat,
    m3: RtmpServerManager,
    r2: Seq<(u16, String)>,
)
    requires
        m0.wf(),
        create_post(m0, n1, m1, r1),
        remove_post(m1, id, m2),
        create_post(m2, n2, m3, r2),
    ensures
        forall|i: int, j: int| 0 <= i < r1.len() && 0 <= j < r2.len() ==> r1[i].0 < r2[j].0,
{
    assert forall|i: int, j: int| 0 <= i < r1.len() && 0 <= j < r2.len() implies r1[i].0
        < r2[j].0 by {
        assert(r1[i].0 == m0.next_id() + i);
        assert(r2[j].0 == m2.next_id() + j);
    }
}

/// After `remove(id)`, the port that `id` held lies in the range and is free.
pub proof fn lemma_port_reclaimed(old: RtmpServerManager, id: u16, new: RtmpServerManager)
    requires
        old.wf(),
        remove_post(old, id, new),
        old.ports().contains_key(id),
    ensures
        in_range(new.low_port(), new.high_port(), old.ports()[id]),
        !new.used_ports().contains(old.ports()[id]),
{
}

/// A port freed by `remove` is handed out again by the next `create` of at
/// least one instance, when every lower port of the range is in use.
pub proof fn lemma_port_reissued(
    m0: RtmpServerManager,
    id: u16,
    m1: RtmpServerManager,
    n: nat,
    m2: RtmpServerManager,
    r: Seq<(u16, String)>,
)
    requires
        m0.wf(),
        m0.ports().contains_key(id),
        remove_post(m0, id, m1),
        create_post(m1, n, m2, r),
        n >= 1,
        forall|q: u16|
            m1.low_port() <= q < m0.ports()[id] ==> #[trigger] m1.used_ports().contains(q),
    ensures
        r.len() >= 1,
        m2.ports()[r[0].0] == m0.ports()[id],
{
    let p = m0.ports()[id];
    assert(issued(m2, m1.next_id(), 0) =~= Set::<u16>::empty());
    assert(m1.used_ports().union(issued(m2, m1.next_id(), 0)) =~= m1.used_ports());
    if r.len() == 0 {
        assert(m2.used_ports() =~= m1.used_ports());
        assert(m2.used_ports().contains(p));
    }
    let q = m2.ports()[r[0].0];
    assert(is_lowest_free(m1.used_ports(), m1.low_port(), m1.high_port(), q));
    if q < p {
        assert(m1.used_ports().contains(q));
    }
    if p < q {
        assert(m1.used_ports().contains(p));
    }
}

/// Right after `create`, the registry holds exactly the instances live
/// before, unchanged, and the new ones, each under the address returned.
pub proof fn lemma_registry_after_create(
    old: RtmpServerManager,
    n: nat,
    new: RtmpServerManager,
    r: Seq<(u16, String)>,
)
    requires
        old.wf(),
        create_post(old, n, new, r),
    ensures
        forall|id: u16|
            #[trigger] new.addresses().contains_key(id) <==> (old.addresses().contains_key(id) || exists|
                i: int,
            | 0 <= i < r.len() && r[i].0 == id),
        forall|id: u16|
            #[trigger] old.addresses().contains_key(id) ==> new.addresses()[id] == old.addresses()[id],
        forall|i: int| 0 <= i < r.len() ==> new.addresses()[#[trigger] r[i].0]@ == r[i].1@,
{
    let start = old.next_id();
    assert forall|id: u16| #[trigger] new.addresses().contains_key(id) implies (
    old.addresses().contains_key(id) || exists|i: int| 0 <= i < r.len() && r[i].0 == id) by {
        if !old.addresses().contains_key(id) {
            let i = id - start;
            assert(r[i].0 == start + i);
        }
    }
    assert forall|i: int| 0 <= i < r.len() implies new.addresses()[#[trigger] r[i].0]@ == r[i].1@ by {
        assert(new.ports().contains_key(r[i].0));
    }
}

/// A second `remove` of the same identifier changes nothing: no record, no
/// port and no identifier moves.
pub proof fn lemma_remove_idempotent(
    m0: RtmpServerManager,
    id: u16,
    m1: RtmpServerManager,
    m2: RtmpServerManager,
)
    requires
        m0.wf(),
        remove_post(m0, id, m1),
        remove_post(m1, id, m2),
    ensures
        m2.addresses() == m1.addresses(),
        m2.ports() == m1.ports(),
        m2.used_ports() == m1.used_ports(),
        m2.next_id() == m1.next_id(),
{
    assert(m2.addresses() =~= m1.addresses());
    assert(m2.ports() =~= m1.ports());
}

} // verus!
