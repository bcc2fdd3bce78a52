//! The topology of a simulation as a graph in the DOT language.

use crate::models::{DevsModel, ModelView};
use crate::simulator::{ConnectorView, Simulation, SimulationView};
use vstd::prelude::*;
use vstd::string::*;

verus! {

/// The line that declares the node of the model `id`.
pub open spec fn node_line(id: Seq<char>) -> Seq<char> {
    "  \""@ + id + "\" [shape=box];\n"@
}

/// The line that draws `connector` as an edge from its source model to its
/// target model, labelled with the connector's id.
pub open spec fn edge_line(connector: ConnectorView) -> Seq<char> {
    "  \""@ + connector.source_id + "\" -> \""@ + connector.target_id + "\" [label=\""@
        + connector.id + "\"];\n"@
}

/// `node_line` as a function of the model.
pub open spec fn node_rule<S>() -> spec_fn(ModelView<S>) -> Seq<char> {
    |model: ModelView<S>| node_line(model.id)
}

/// `edge_line` as a function of the connector.
pub open spec fn edge_rule() -> spec_fn(ConnectorView) -> Seq<char> {
    |connector: ConnectorView| edge_line(connector)
}

/// The node lines of `models`, in their order.
pub open spec fn node_lines<S>(models: Seq<ModelView<S>>) -> Seq<char> {
    models.map_values(node_rule()).flatten()
}

/// The edge lines of `connectors`, in their order.
pub open spec fn edge_lines(connectors: Seq<ConnectorView>) -> Seq<char> {
    connectors.map_values(edge_rule()).flatten()
}

/// The graph of a simulation: a `digraph` block that holds one node line for
/// each model and then one edge line for each connector.
pub open spec fn dot_graph<M: DevsModel>(simulation: SimulationView<M>) -> Seq<char> {
    "digraph DAG {\n"@ + node_lines(simulation.models) + edge_lines(simulation.connectors) + "}\n"@
}

/// A report on a simulation.
pub trait Report {
    /// The topology of the simulation as a graph in the DOT language.
    fn generate_dot_graph(&self) -> (graph: String);
}

impl<M: DevsModel> Report for Simulation<M> {
    fn generate_dot_graph(&self) -> (graph: String)
        ensures
            graph@ == dot_graph(self@),
    {
        let models = self.get_models().values();
        let connectors = self.get_connectors();
        let ghost nodes = models.deep_view();
        let ghost edges = connectors.deep_view();
        let mut dot_string = String::from_str("digraph DAG {\n");

        let mut i: usize = 0;
        assert(dot_string@ =~= "digraph DAG {\n"@ + node_lines(nodes.take(0)));
        while i < models.len()
            invariant
                i <= models.len(),
                nodes == models.deep_view(),
                dot_string@ == "digraph DAG {\n"@ + node_lines(nodes.take(i as int)),
            decreases models.len() - i,
        {
            proof {
                let done = nodes.take(i as int).map_values(node_rule());
                assert(nodes[i as int].id == models@[i as int].id@);
                assert(nodes.take(i + 1).map_values(node_rule()) =~= done.push(
                    node_line(nodes[i as int].id),
                ));
                done.lemma_flatten_push(node_line(nodes[i as int].id));
            }
            let ghost before = dot_string@;
            dot_string.append("  \"");
            dot_string.append(models[i].id());
            dot_string.append("\" [shape=box];\n");
            assert(dot_string@ =~= before + node_line(nodes[i as int].id));
            assert(dot_string@ =~= "digraph DAG {\n"@ + node_lines(nodes.take(i + 1)));
            i = i + 1;
        }
        assert(nodes.take(models.len() as int) =~= nodes);

        let mut j: usize = 0;
        assert(dot_string@ =~= "digraph DAG {\n"@ + node_lines(nodes) + edge_lines(edges.take(0)));
        while j < connectors.len()
            invariant
                j <= connectors.len(),
                edges == connectors.deep_view(),
                dot_string@ == "digraph DAG {\n"@ + node_lines(nodes) + edge_lines(
                    edges.take(j as int),
                ),
            decreases connectors.len() - j,
        {
            proof {
                let done = edges.take(j as int).map_values(edge_rule());
                assert(edges[j as int] == connectors@[j as int]@);
                assert(edges.take(j + 1).map_values(edge_rule()) =~= done.push(
                    edge_line(edges[j as int]),
                ));
                done.lemma_flatten_push(edge_line(edges[j as int]));
            }
            let ghost before = dot_string@;
            dot_string.append("  \"");
            dot_string.append(connectors[j].source_id());
            dot_string.append("\" -> \"");
            dot_string.append(connectors[j].target_id());
            dot_string.append("\" [label=\"");
            dot_string.append(connectors[j].id());
            dot_string.append("\"];\n");
            assert(dot_string@ =~= before + edge_line(edges[j as int]));
            assert(dot_string@ =~= "digraph DAG {\n"@ + node_lines(nodes) + edge_lines(
                edges.take(j + 1),
            ));
            j = j + 1;
        }
        assert(edges.take(connectors.len() as int) =~= edges);

        dot_string.append("}\n");
        dot_string
    }
}

} // verus!
