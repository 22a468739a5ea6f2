use vstd::prelude::*;

verus! {

/// Creates the graph named by the parameter `$1`.
pub const CREATE_GRAPH: &'static str = "SELECT * FROM create_graph($1)";

/// Drops the graph named by the parameter `$1`, with all it holds.
pub const DROP_GRAPH: &'static str = "SELECT * FROM drop_graph($1, true)";

/// Loads the AGE extension into the session.
pub const LOAD_AGE: &'static str = "LOAD 'age'";

/// Puts the AGE catalog on the session's search path.
pub const SET_AGE: &'static str = "SET search_path = ag_catalog, \"$user\", public";

/// Counts the graphs named by the parameter `$1`.
pub const GRAPH_EXISTS: &'static str = "SELECT COUNT(name) FROM ag_graph WHERE name = $1";

/// The SQL text that runs `cypher` on `graph`, with the query parameter `$1`
/// handed on to cypher where `use_arg` holds.
pub open spec fn cypher_query_text(graph: Seq<char>, cypher: Seq<char>, use_arg: bool) -> Seq<char> {
    "SELECT * FROM cypher('"@ + graph + "', $$ "@ + cypher + " $$"@ + (if use_arg {
        ", $1"@
    } else {
        ""@
    }) + ") as (v agtype)"@
}

/// The SQL text that adds the check `constraint_text`, named `name`, to the
/// table of the label `label` in the graph `graph`.
pub open spec fn constraint_text_of(
    graph: Seq<char>,
    label: Seq<char>,
    name: Seq<char>,
    constraint_text: Seq<char>,
) -> Seq<char> {
    "ALTER TABLE \""@ + graph + "\".\""@ + label + "\" ADD CONSTRAINT \""@ + name + "\" CHECK("@
        + constraint_text + ")"@
}

/// The SQL text that creates the unique index `name` on the property `field`
/// of the label `label` in the graph `graph`.
pub open spec fn unique_index_text(
    graph: Seq<char>,
    label: Seq<char>,
    name: Seq<char>,
    field: Seq<char>,
) -> Seq<char> {
    "CREATE UNIQUE INDEX \""@ + name + "\" ON \""@ + graph + "\".\""@ + label
        + "\"(agtype_access_operator(properties, '\""@ + field + "\"'))"@
}

/// The check that the property `field` is present.
pub open spec fn required_text(field: Seq<char>) -> Seq<char> {
    "agtype_access_operator(properties, '\""@ + field + "\"') IS NOT NULL"@
}

/// The SQL text of a cypher query on a graph.
pub fn cypher_query(graph: &str, cypher: &str, use_arg: bool) -> (r: String)
    ensures
        r@ == cypher_query_text(graph@, cypher@, use_arg),
{
    let mut q = String::from_str("SELECT * FROM cypher('");
    q.append(graph);
    q.append("', $$ ");
    q.append(cypher);
    q.append(" $$");
    if use_arg {
        q.append(", $1");
    }
    q.append(") as (v agtype)");
    proof {
        if !use_arg {
            reveal_strlit("");
            assert(q@ =~= cypher_query_text(graph@, cypher@, use_arg));
        }
    }
    q
}

/// The SQL text that adds a check constraint to the table of a label.
pub fn constraint_query(graph: &str, label: &str, name: &str, constraint_text: &str) -> (r: String)
    ensures
        r@ == constraint_text_of(graph@, label@, name@, constraint_text@),
{
    let mut q = String::from_str("ALTER TABLE \"");
    q.append(graph);
    q.append("\".\"");
    q.append(label);
    q.append("\" ADD CONSTRAINT \"");
    q.append(name);
    q.append("\" CHECK(");
    q.append(constraint_text);
    q.append(")");
    q
}

/// The SQL text that creates a unique index on a property of a label.
pub fn unique_index_query(graph: &str, label: &str, name: &str, field: &str) -> (r: String)
    ensures
        r@ == unique_index_text(graph@, label@, name@, field@),
{
    let mut q = String::from_str("CREATE UNIQUE INDEX \"");
    q.append(name);
    q.append("\" ON \"");
    q.append(graph);
    q.append("\".\"");
    q.append(label);
    q.append("\"(agtype_access_operator(properties, '\"");
    q.append(field);
    q.append("\"'))");
    q
}

/// The SQL text that requires a property of a label to be present.
pub fn required_constraint_query(graph: &str, label: &str, name: &str, field: &str) -> (r: String)
    ensures
        r@ == constraint_text_of(graph@, label@, name@, required_text(field@)),
{
    let mut check = String::from_str("agtype_access_operator(properties, '\"");
    check.append(field);
    check.append("\"') IS NOT NULL");
    constraint_query(graph, label, name, check.as_str())
}

/// Whether a graph exists, from the number of graphs with its name.
pub fn graph_exists_from_count(count: i64) -> (r: bool)
    ensures
        r == (count == 1),
{
    count == 1
}

} // verus!
