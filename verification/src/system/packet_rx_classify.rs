//! The system that marks received packets of unknown connections.

use crate::connection::{Entity, InitialId};
use crate::t2::connection::{Connection, InitialIdMap};
use vstd::prelude::*;

verus! {

/// The entities of the packets, in order, whose Initial id no connection has.
pub open spec fn unknown_spec(packets: Seq<(Entity, InitialId)>, known: Map<Seq<u8>, Connection>) -> Seq<
    Entity,
>
    decreases packets.len(),
{
    if packets.len() == 0 {
        Seq::empty()
    } else {
        let rest = unknown_spec(packets.drop_last(), known);
        if known.contains_key(packets.last().1@) {
            rest
        } else {
            rest.push(packets.last().0)
        }
    }
}

/// Goes over the received packets with an Initial id: a packet whose id a
/// connection has is left to it, the others are returned to be marked as
/// unknown.
pub fn classify_rx(packets: &Vec<(Entity, InitialId)>, ids: &InitialIdMap) -> (unknown: Vec<Entity>)
    requires
        ids.wf(),
        forall|i: int| 0 <= i < packets@.len() ==> (#[trigger] packets@[i]).1.wf(),
    ensures
        unknown@ == unknown_spec(packets@, ids.forward()),
{
    let mut unknown: Vec<Entity> = Vec::new();
    let mut i: usize = 0;
    while i < packets.len()
        invariant
            i <= packets@.len(),
            ids.wf(),
            forall|j: int| 0 <= j < packets@.len() ==> (#[trigger] packets@[j]).1.wf(),
            unknown@ == unknown_spec(packets@.take(i as int), ids.forward()),
        decreases packets@.len() - i,
    {
        let (entity, conn_id) = &packets[i];
        proof {
            assert(packets@.take(i + 1).drop_last() =~= packets@.take(i as int));
            assert(packets@[i as int].1.wf());
        }
        match ids.get(conn_id) {
            Some(connection) => {
                // the packet belongs to a connection
                let _ = connection;
            },
            None => {
                unknown.push(*entity);
            },
        }
        i = i + 1;
    }
    proof {
        assert(packets@.take(packets@.len() as int) =~= packets@);
    }
    unknown
}

} // verus!
