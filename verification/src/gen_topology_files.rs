//! Files for a generated topology: a graph description of who dials whom.

use crate::gen_topology::{dials_of, params_fault, Network, NodeId, Params, ParamsView};
use crate::ordered::{in_order, increasing, lemma_in_order, sorted_keys};
use crate::text::{decimal, decimal_text};
use std::collections::BTreeMap;
use vstd::prelude::*;

verus! {

/// What a run is asked for.
pub struct RunParams {
    pub seed: u64,
    pub total_validators: usize,
    pub total_nodes_with_vals: usize,
    pub total_nodes: usize,
    pub min_peers_per_node: usize,
    pub max_peers_per_node_inc: usize,
    pub dotfile_name: String,
    pub config_file_name: String,
}

impl RunParams {
    /// What is wrong with the numbers of the run, if anything. The number of nodes counts those
    /// without validators.
    pub open spec fn fault(self) -> Option<Seq<char>> {
        params_fault(
            self.total_validators,
            self.total_nodes_with_vals,
            self.total_nodes,
            self.min_peers_per_node,
            self.max_peers_per_node_inc,
        )
    }

    /// The parameters of the network of the run.
    pub open spec fn network_params(self) -> ParamsView {
        ParamsView {
            seed: self.seed,
            total_validators: self.total_validators,
            total_nodes_with_vals: self.total_nodes_with_vals,
            total_nodes: (self.total_nodes_with_vals + self.total_nodes) as usize,
            min_peers_per_node: self.min_peers_per_node,
            max_peers_per_node: self.max_peers_per_node_inc,
        }
    }

    /// Checks the numbers of the run.
    pub fn params(&self) -> (params: Result<Params, String>)
        ensures
            match self.fault() {
                Some(fault) => params is Err && params->Err_0@ == fault,
                None => params is Ok && params->Ok_0@ == self.network_params(),
            },
    {
        match Params::new(
            self.seed,
            self.total_validators,
            self.total_nodes_with_vals,
            self.total_nodes,
            self.min_peers_per_node,
            self.max_peers_per_node_inc,
        ) {
            Ok(params) => Ok(params),
            Err(fault) => Err(fault.to_owned()),
        }
    }
}

/// The line of a graph description for one connection.
pub open spec fn edge_line(from: NodeId, to: NodeId) -> Seq<char> {
    "\t"@ + decimal(from as nat) + " -> "@ + decimal(to as nat) + ";\n"@
}

/// The lines for the connections of a node, in dialing order.
pub open spec fn edge_lines(from: NodeId, peers: Seq<NodeId>) -> Seq<char>
    decreases peers.len(),
{
    if peers.len() == 0 {
        Seq::empty()
    } else {
        edge_lines(from, peers.drop_last()) + edge_line(from, peers.last())
    }
}

/// The lines for the connections of the nodes `from`, one node after the other.
pub open spec fn graph_lines(dialed: Map<NodeId, Seq<NodeId>>, from: Seq<NodeId>) -> Seq<char>
    decreases from.len(),
{
    if from.len() == 0 {
        Seq::empty()
    } else {
        graph_lines(dialed, from.drop_last()) + edge_lines(from.last(), dialed[from.last()])
    }
}

/// The graph description of who dials whom, in the order of the dialing nodes.
pub open spec fn graph(dialed: Map<NodeId, Seq<NodeId>>) -> Seq<char> {
    "digraph {\n"@ + graph_lines(dialed, in_order(dialed.dom())) + "}\n"@
}

/// Writes the graph description of a network.
pub fn dotfile(network: &Network) -> (text: String)
    ensures
        text@ == graph(network@.outbound_peers),
{
    let outbound: &BTreeMap<NodeId, Vec<NodeId>> = network.outbound_peers();
    let ghost dialed = network@.outbound_peers;
    let nodes: Vec<usize> = sorted_keys(outbound);
    let mut text: String = "digraph {\n".to_owned();
    let mut i: usize = 0;
    proof {
        assert(dialed.dom() =~= outbound@.dom());
        assert(nodes@.take(0) =~= Seq::empty());
        assert(text@ =~= "digraph {\n"@ + graph_lines(dialed, nodes@.take(0)));
    }
    while i < nodes.len()
        invariant
            dialed == dials_of(outbound@),
            nodes@.to_set() == outbound@.dom(),
            i <= nodes@.len(),
            text@ == "digraph {\n"@ + graph_lines(dialed, nodes@.take(i as int)),
        decreases nodes@.len() - i,
    {
        let from: usize = nodes[i];
        assert(nodes@.to_set().contains(from));
        let peers: &Vec<NodeId> = outbound.get(&from).unwrap();
        let ghost head = text@;
        let mut j: usize = 0;
        assert(peers@.take(0) =~= Seq::empty());
        assert(text@ =~= head + edge_lines(from, peers@.take(0)));
        while j < peers.len()
            invariant
                j <= peers@.len(),
                text@ == head + edge_lines(from, peers@.take(j as int)),
            decreases peers@.len() - j,
        {
            text.append("\t");
            text.append(decimal_text(from as u128).as_str());
            text.append(" -> ");
            text.append(decimal_text(peers[j] as u128).as_str());
            text.append(";\n");
            proof {
                let next = peers@.take(j + 1);
                assert(next.drop_last() =~= peers@.take(j as int));
                assert(text@ =~= head + edge_lines(from, next));
            }
            j = j + 1;
        }
        proof {
            assert(peers@.take(j as int) =~= peers@);
            let next = nodes@.take(i + 1);
            assert(next.drop_last() =~= nodes@.take(i as int));
            assert(dialed[from] == peers@);
            assert(text@ =~= "digraph {\n"@ + graph_lines(dialed, next));
        }
        i = i + 1;
    }
    assert(nodes@.take(i as int) =~= nodes@);
    text.append("}\n");
    text
}

/// The network of a run has the numbers that were asked for. Nodes without validators count on top of
/// those with validators.
pub proof fn runs_ask_for_their_network(run: RunParams)
    requires
        run.fault() is None,
    ensures
        ({
            let params = run.network_params();
            &&& params.seed == run.seed
            &&& params.total_validators == run.total_validators
            &&& params.total_nodes_with_vals == run.total_nodes_with_vals
            &&& params.total_nodes == run.total_nodes_with_vals + run.total_nodes
            &&& params.min_peers_per_node == run.min_peers_per_node
            &&& params.max_peers_per_node == run.max_peers_per_node_inc
            &&& run.min_peers_per_node <= run.max_peers_per_node_inc
            &&& run.total_validators > 0 && params.total_nodes > 0
        }),
{
}

/// A run is refused exactly where its numbers cannot make a network.
pub proof fn runs_are_refused_for_their_numbers(run: RunParams)
    ensures
        run.fault() is Some <==> run.total_nodes_with_vals + run.total_nodes > usize::MAX
            || run.total_nodes_with_vals + run.total_nodes == 0 || run.total_validators == 0
            || run.min_peers_per_node > run.max_peers_per_node_inc,
{
}

/// The graph has one line for each connection, from the node that dials to the one that it dials: for the
/// nodes in ascending order, and for each of them in dialing order.
pub proof fn graphs_have_a_line_for_each_connection(
    dialed: Map<NodeId, Seq<NodeId>>,
    nodes: Seq<NodeId>,
    from: NodeId,
    to: NodeId,
    peers: Seq<NodeId>,
)
    ensures
        increasing(nodes) && nodes.to_set() == dialed.dom() ==> graph(dialed) == "digraph {\n"@
            + graph_lines(dialed, nodes) + "}\n"@,
        graph_lines(dialed, Seq::empty()).len() == 0,
        graph_lines(dialed, nodes.push(from)) == graph_lines(dialed, nodes) + edge_lines(
            from,
            dialed[from],
        ),
        edge_lines(from, Seq::empty()).len() == 0,
        edge_lines(from, peers.push(to)) == edge_lines(from, peers) + ("\t"@ + decimal(from as nat)
            + " -> "@ + decimal(to as nat) + ";\n"@),
{
    assert(nodes.push(from).drop_last() =~= nodes);
    assert(peers.push(to).drop_last() =~= peers);
    if increasing(nodes) && nodes.to_set() == dialed.dom() {
        lemma_in_order(nodes);
    }
}

} // verus!
