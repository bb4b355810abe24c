use rdf_rs::parsing::ParserError;
use rdf_rs::parsing::turtle::TurtleParser;
use rdf_rs::querying::QueryBuilder;
use rdf_rs::triple::Triple;

type TestReturn = Result<(), ParserError>;

const DATA: &str = "@prefix ex: <http://example.org/> . \
    ex:spiderman ex:enemyOf ex:green-goblin . \
    ex:spiderman ex:name \"Spiderman\" . \
    ex:goblin ex:name \"Goblin\" .";

#[test]
fn subject_filter_keeps_matching_facts() -> TestReturn {
    let graph = TurtleParser::graph(DATA)?;
    let results = QueryBuilder::start(graph.triples)
        .subject(|s| s == "ex:spiderman")
        .query();
    assert_eq!(results.len(), 2);
    for t in &results {
        assert_eq!(t.subject.to_text(), "ex:spiderman");
    }
    Ok(())
}

#[test]
fn chained_filters_compose_as_conjunction() -> TestReturn {
    let graph = TurtleParser::graph(DATA)?;
    let chained = QueryBuilder::start(graph.triples.clone())
        .subject(|s| s == "ex:spiderman")
        .predicate(|p| p == "ex:name")
        .query();
    let combined = QueryBuilder::start(graph.triples)
        .select(|t| t.subject.to_text() == "ex:spiderman" && t.predicate.to_text() == "ex:name")
        .query();
    assert_eq!(chained, combined);
    assert_eq!(chained.len(), 1);
    Ok(())
}

#[test]
fn filters_preserve_relative_order() -> TestReturn {
    let graph = TurtleParser::graph(DATA)?;
    let names = QueryBuilder::start(graph.triples)
        .predicate(|p| p == "ex:name")
        .query();
    assert_eq!(names.len(), 2);
    assert_eq!(names[0].subject.to_text(), "ex:spiderman");
    assert_eq!(names[1].subject.to_text(), "ex:goblin");
    Ok(())
}

#[test]
fn value_returns_first_object_or_none() -> TestReturn {
    let graph = TurtleParser::graph(DATA)?;
    let value = QueryBuilder::start(graph.triples.clone())
        .predicate(|p| p == "ex:name")
        .value();
    assert_eq!(value.unwrap().to_text(), "\"Spiderman\"^^xsd:string");

    let none = QueryBuilder::start(graph.triples)
        .subject(|s| s == "ex:nobody")
        .value();
    assert!(none.is_none());
    Ok(())
}

#[test]
fn values_distinguishes_empty_from_absent() -> TestReturn {
    let graph = TurtleParser::graph(DATA)?;
    let values = QueryBuilder::start(graph.triples.clone())
        .predicate(|p| p == "ex:name")
        .values()
        .unwrap();
    assert_eq!(values.len(), 2);

    let absent = QueryBuilder::start(graph.triples)
        .subject(|s| s == "ex:nobody")
        .values();
    assert!(absent.is_none());

    // A matching fact with an empty-valued literal is a present value,
    // not an absent result.
    let facts: Vec<Triple> = TurtleParser::triple("_:a _:b \"\"^^xsd:string .")?;
    let values = QueryBuilder::start(facts).values();
    assert_eq!(values.unwrap().len(), 1);
    Ok(())
}

#[test]
fn object_filter_matches_canonical_text() -> TestReturn {
    let graph = TurtleParser::graph(DATA)?;
    let enemies = QueryBuilder::start(graph.triples)
        .object(|o| o == "ex:green-goblin")
        .query();
    assert_eq!(enemies.len(), 1);
    assert_eq!(enemies[0].predicate.to_text(), "ex:enemyOf");
    Ok(())
}

#[test]
fn start_query_never_mutates_the_graph() -> TestReturn {
    let graph = TurtleParser::graph(
        "@base <http://example.org/> . @prefix ex: <http://example.org/> . \
         ex:employer rdfs:domain ex:Person . ex:john ex:employer ex:acme .",
    )?;
    let before = graph.clone();
    let _ = graph.start_query(1);
    assert_eq!(graph, before);
    let _ = graph.start_query(0);
    assert_eq!(graph, before);
    Ok(())
}

#[test]
fn start_query_appends_inferred_facts() -> TestReturn {
    let graph = TurtleParser::graph(
        "@prefix ex: <http://example.org/> . \
         ex:employer rdfs:domain ex:Person . ex:john ex:employer ex:acme .",
    )?;
    let plain = graph.start_query(0).query();
    assert_eq!(plain.len(), 2);

    // The domain rule types the subject; the resource-typing rule types
    // it as a resource besides.
    let typed = graph
        .start_query(1)
        .select(|t| {
            t.subject.to_text() == "ex:john" && t.predicate.to_text() == "rdf:type"
        })
        .query();
    assert_eq!(typed.len(), 2);
    let objects: Vec<String> = typed.iter().map(|t| t.object.to_text()).collect();
    assert!(objects.contains(&"ex:Person".to_string()));
    assert!(objects.contains(&"rdfs:Resource".to_string()));
    Ok(())
}
