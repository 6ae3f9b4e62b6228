use crate::directory::{ScalableCanisterDetailsView, ScalableData};
use crate::group_model::{GroupResponse, GroupResponseView};
use crate::principal::Principal;
use vstd::prelude::*;

verus! {

/// The size of a chunk that the directory asks for where no other is
/// given.
pub const DEFAULT_CHUNK_BYTES: usize = 2_000_000;

/// The identifiers of a list of nodes.
pub open spec fn node_principals(nodes: Seq<ScalableCanisterDetailsView>) -> Seq<Seq<u8>> {
    nodes.map_values(|n: ScalableCanisterDetailsView| n.principal)
}

/// What a node is taken to have answered to the call for a chunk: its
/// answer, or no bytes and no chunks where the call failed.
pub open spec fn chunk_reply(
    reply: Option<(Vec<u8>, (usize, usize))>,
) -> (Seq<u8>, (usize, usize)) {
    match reply {
        Some(answer) => (answer.0@, answer.1),
        None => (Seq::<u8>::empty(), (0, 0)),
    }
}

/// The groups that a node is taken to have given: those that its bytes
/// spell, or none where the bytes spell nothing.
pub open spec fn node_groups(decoded: Option<Vec<GroupResponse>>) -> Seq<GroupResponseView> {
    match decoded {
        Some(groups) => groups.deep_view(),
        None => Seq::<GroupResponseView>::empty(),
    }
}

impl ScalableData {
    /// The nodes to ask when the groups of all nodes are gathered, in the
    /// order in which they are asked: one after the other, as they were
    /// provisioned.
    pub fn get_child_canister_data(&self) -> (r: Vec<Principal>)
        ensures
            r.deep_view() == node_principals(self@.canisters),
    {
        let mut out: Vec<Principal> = Vec::new();
        let mut i: usize = 0;
        while i < self.canisters.len()
            invariant
                i <= self.canisters@.len(),
                out@.len() == i,
                forall|k: int| 0 <= k < i ==> out@[k]@ == self.canisters@[k].principal@,
            decreases self.canisters@.len() - i,
        {
            out.push(self.canisters[i].principal.clone());
            i += 1;
        }
        assert(out.deep_view() =~= node_principals(self@.canisters));
        out
    }

    /// The size of chunk to ask a node for.
    pub fn chunk_bytes(max_bytes_per_chunk: Option<usize>) -> (r: usize)
        ensures
            r == match max_bytes_per_chunk {
                Some(max) => max,
                None => DEFAULT_CHUNK_BYTES,
            },
    {
        match max_bytes_per_chunk {
            Some(max) => max,
            None => DEFAULT_CHUNK_BYTES,
        }
    }

    /// What a node is taken to have answered to the call for a chunk: see
    /// [`chunk_reply`]. A node that cannot be reached holds the others up
    /// no longer than its own call.
    pub fn get_child_data_call(reply: Option<(Vec<u8>, (usize, usize))>) -> (r: (
        Vec<u8>,
        (usize, usize),
    ))
        ensures
            (r.0@, r.1) == chunk_reply(reply),
    {
        match reply {
            Some(answer) => answer,
            None => (Vec::new(), (0, 0)),
        }
    }

    /// Adds the groups of one node to those gathered so far. `decoded`
    /// holds what the bytes of the node spell, or nothing where they spell
    /// nothing; such a node adds no groups, and the others still count.
    pub fn get_filtered_child_data(
        groups: &mut Vec<GroupResponse>,
        decoded: Option<Vec<GroupResponse>>,
    )
        ensures
            final(groups).deep_view() == old(groups).deep_view() + node_groups(decoded),
    {
        let ghost before = groups.deep_view();
        match decoded {
            Some(found) => {
                let mut found = found;
                let ghost added = found.deep_view();
                groups.append(&mut found);
                assert(groups.deep_view() =~= before + added);
            },
            None => {
                assert(groups.deep_view() =~= before + Seq::<GroupResponseView>::empty());
            },
        }
    }
}

} // verus!
