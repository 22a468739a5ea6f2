use apache_age::{
    constraint_query, cypher_query, graph_exists_from_count, required_constraint_query,
    unique_index_query,
};

#[test]
fn cypher_query_without_argument() {
    assert_eq!(
        cypher_query("g", "MATCH (n) RETURN n", false),
        "SELECT * FROM cypher('g', $$ MATCH (n) RETURN n $$) as (v agtype)"
    );
}

#[test]
fn cypher_query_with_argument() {
    assert_eq!(
        cypher_query("g", "CREATE(n: Person {name: $name})", true),
        "SELECT * FROM cypher('g', $$ CREATE(n: Person {name: $name}) $$, $1) as (v agtype)"
    );
}

#[test]
fn constraint_text() {
    assert_eq!(
        constraint_query("g", "Person", "myconstraint", "x IS NOT NULL"),
        "ALTER TABLE \"g\".\"Person\" ADD CONSTRAINT \"myconstraint\" CHECK(x IS NOT NULL)"
    );
}

#[test]
fn unique_index_text() {
    assert_eq!(
        unique_index_query("g", "Person", "myconstraint", "surname"),
        "CREATE UNIQUE INDEX \"myconstraint\" ON \"g\".\"Person\"(agtype_access_operator(properties, '\"surname\"'))"
    );
}

#[test]
fn required_constraint_text() {
    assert_eq!(
        required_constraint_query("g", "Person", "myconstraint", "surname"),
        "ALTER TABLE \"g\".\"Person\" ADD CONSTRAINT \"myconstraint\" CHECK(agtype_access_operator(properties, '\"surname\"') IS NOT NULL)"
    );
}

#[test]
fn graph_exists_only_for_one() {
    assert!(graph_exists_from_count(1));
    assert!(!graph_exists_from_count(0));
    assert!(!graph_exists_from_count(2));
}
