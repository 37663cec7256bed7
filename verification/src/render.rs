//! Text exports of a transition graph: one edge per transition, labelled
//! by its event. Guards and priorities are not shown.

use vstd::prelude::*;
use vstd::string::StringExecFns;

verus! {

/// One edge of the graph, by the labels of its two states and of its event.
#[derive(Debug, Clone)]
pub struct Edge {
    pub from: String,
    pub to: String,
    pub event: String,
}

/// The line of an edge in the DOT format.
pub open spec fn dot_line(edge: Edge) -> Seq<char> {
    "  \""@ + edge.from@ + "\" -> \""@ + edge.to@ + "\" [label=\""@ + edge.event@ + "\"];\n"@
}

/// The lines of the edges in the DOT format, in their order.
pub open spec fn dot_lines(edges: Seq<Edge>) -> Seq<char>
    decreases edges.len(),
{
    if edges.len() == 0 {
        Seq::empty()
    } else {
        dot_lines(edges.drop_last()) + dot_line(edges.last())
    }
}

/// The graph in the DOT format.
pub open spec fn dot_text(edges: Seq<Edge>) -> Seq<char> {
    "digraph StateMachine {\n"@ + "  rankdir=LR;\n"@ + "  node [shape=box];\n\n"@ + dot_lines(edges)
        + "}\n"@
}

/// The line of an edge in the PlantUML format.
pub open spec fn plantuml_line(edge: Edge) -> Seq<char> {
    edge.from@ + " --> "@ + edge.to@ + " : "@ + edge.event@ + "\n"@
}

/// The lines of the edges in the PlantUML format, in their order.
pub open spec fn plantuml_lines(edges: Seq<Edge>) -> Seq<char>
    decreases edges.len(),
{
    if edges.len() == 0 {
        Seq::empty()
    } else {
        plantuml_lines(edges.drop_last()) + plantuml_line(edges.last())
    }
}

/// The graph in the PlantUML format.
pub open spec fn plantuml_text(edges: Seq<Edge>) -> Seq<char> {
    "@startuml\n"@ + plantuml_lines(edges) + "@enduml\n"@
}

/// Writes a graph in the DOT format.
pub fn render_dot(edges: &Vec<Edge>) -> (text: String)
    ensures
        text@ == dot_text(edges@),
{
    let mut text = String::from_str("digraph StateMachine {\n");
    text.append("  rankdir=LR;\n");
    text.append("  node [shape=box];\n\n");
    let ghost head = text@;
    let mut i: usize = 0;
    while i < edges.len()
        invariant
            0 <= i <= edges@.len(),
            text@ == head + dot_lines(edges@.take(i as int)),
        decreases edges@.len() - i,
    {
        let edge = &edges[i];
        let ghost before = text@;
        text.append("  \"");
        text.append(edge.from.as_str());
        text.append("\" -> \"");
        text.append(edge.to.as_str());
        text.append("\" [label=\"");
        text.append(edge.event.as_str());
        text.append("\"];\n");
        proof {
            assert(edges@.take(i + 1).drop_last() =~= edges@.take(i as int));
            assert(edges@.take(i + 1).last() == *edge);
            assert(text@ =~= before + dot_line(*edge));
            assert(text@ =~= head + dot_lines(edges@.take(i + 1)));
        }
        i = i + 1;
    }
    text.append("}\n");
    proof {
        assert(edges@.take(i as int) =~= edges@);
        assert(text@ =~= dot_text(edges@));
    }
    text
}

/// Writes a graph in the PlantUML format.
pub fn render_plantuml(edges: &Vec<Edge>) -> (text: String)
    ensures
        text@ == plantuml_text(edges@),
{
    let mut text = String::from_str("@startuml\n");
    let ghost head = text@;
    let mut i: usize = 0;
    while i < edges.len()
        invariant
            0 <= i <= edges@.len(),
            text@ == head + plantuml_lines(edges@.take(i as int)),
        decreases edges@.len() - i,
    {
        let edge = &edges[i];
        let ghost before = text@;
        text.append(edge.from.as_str());
        text.append(" --> ");
        text.append(edge.to.as_str());
        text.append(" : ");
        text.append(edge.event.as_str());
        text.append("\n");
        proof {
            assert(edges@.take(i + 1).drop_last() =~= edges@.take(i as int));
            assert(edges@.take(i + 1).last() == *edge);
            assert(text@ =~= before + plantuml_line(*edge));
            assert(text@ =~= head + plantuml_lines(edges@.take(i + 1)));
        }
        i = i + 1;
    }
    text.append("@enduml\n");
    proof {
        assert(edges@.take(i as int) =~= edges@);
        assert(text@ =~= plantuml_text(edges@));
    }
    text
}

} // verus!
