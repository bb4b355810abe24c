use rdf_rs::uri::{Error, Uri, UriType};
use rdf_rs::object::{Literal, Object};
use rdf_rs::resource::Resource;
use rdf_rs::relationship::Relationship;
use rdf_rs::triple::Triple;
use rdf_rs::parsing::ParserError;
use rdf_rs::parsing::turtle::TurtleParser;

type TestReturn = Result<(), ParserError>;

fn fact(subject: Uri, predicate: Uri, object: Object) -> Triple {
    (Resource(subject), Relationship(predicate), object).into()
}

#[test]
fn canonical_text_derives_equality() {
    // Equality of facts goes by the canonical printed form, so the same
    // text in different representation kinds is the same fact.
    let a = fact(
        Uri::new("ex:", "a", UriType::Prefixed),
        Uri::new("ex:", "b", UriType::Prefixed),
        Object::Resource(Uri::new("ex:", "c", UriType::Prefixed)),
    );
    let b = fact(
        Uri::new("ex:", "a", UriType::Full),
        Uri::new("ex:", "b", UriType::Full),
        Object::Resource(Uri::new("ex:", "c", UriType::Full)),
    );
    assert_eq!(a.to_text(), "ex:a ex:b ex:c .");
    assert_eq!(a, b);

    let c = fact(
        Uri::new("ex:", "a", UriType::Prefixed),
        Uri::new("ex:", "b", UriType::Prefixed),
        Object::Literal("\"c\"".into()),
    );
    assert_eq!(c.to_text(), "ex:a ex:b \"c\"^^xsd:string .");
    assert_ne!(a, c);
}

#[test]
fn patterns_match_reflexively() {
    let t = fact(
        Uri::new("http://example.org/", "a", UriType::Full),
        Uri::new("http://example.org/", "b", UriType::Full),
        Object::Resource(Uri::new("http://example.org/", "c", UriType::Full)),
    );
    assert!(t.matches_pattern(&t));

    let lit = fact(
        Uri::new("http://example.org/", "a", UriType::Full),
        Uri::new("http://example.org/", "b", UriType::Full),
        Object::Literal("\"v\"".into()),
    );
    assert!(lit.matches_pattern(&lit));
}

#[test]
fn blank_pattern_matches_every_fact() {
    let pattern = fact(
        Uri::new("_:", "x", UriType::BlankNode),
        Uri::new("_:", "y", UriType::BlankNode),
        Object::Resource(Uri::new("_:", "z", UriType::BlankNode)),
    );
    let facts = vec![
        fact(
            Uri::new("http://example.org/", "a", UriType::Full),
            Uri::new("http://example.org/", "b", UriType::Full),
            Object::Resource(Uri::new("http://example.org/", "c", UriType::Full)),
        ),
        fact(
            Uri::new("ex:", "a", UriType::Prefixed),
            Uri::new("ex:", "b", UriType::Prefixed),
            Object::Literal("\"v\"".into()),
        ),
    ];
    assert!(!facts.is_empty());
    for f in &facts {
        assert!(f.matches_pattern(&pattern));
    }
}

#[test]
fn literal_pattern_requires_equal_literal() {
    let lit = fact(
        Uri::new("ex:", "a", UriType::Prefixed),
        Uri::new("ex:", "b", UriType::Prefixed),
        Object::Literal("\"v\"".into()),
    );
    let other = fact(
        Uri::new("ex:", "a", UriType::Prefixed),
        Uri::new("ex:", "b", UriType::Prefixed),
        Object::Literal("\"w\"".into()),
    );
    assert!(!lit.matches_pattern(&other));
    assert!(!other.matches_pattern(&lit));
}

#[test]
fn canonicalization_resolves_every_identifier() -> TestReturn {
    let mut graph = TurtleParser::graph(
        "@base <http://example.org/base#> . \
         @prefix foaf: <http://xmlns.com/foaf/0.1/> . \
         :john foaf:knows <#jane> . _:b foaf:name \"Anon\" .",
    )?;
    assert!(graph.apply_metadata().is_ok());
    for t in &graph.triples {
        assert!(matches!(
            t.subject.0.uri_type,
            UriType::Full | UriType::BlankNode
        ));
        assert!(matches!(
            t.predicate.0.uri_type,
            UriType::Full | UriType::BlankNode
        ));
        if let Object::Resource(u) = &t.object {
            assert!(matches!(u.uri_type, UriType::Full | UriType::BlankNode));
        }
    }
    let knows = &graph.triples[0];
    assert_eq!(
        knows.to_text(),
        "http://example.org/base#john http://xmlns.com/foaf/0.1/knows http://example.org/base#jane ."
    );
    Ok(())
}

#[test]
fn undefined_prefix_is_a_recoverable_error() -> TestReturn {
    let mut graph = TurtleParser::graph("foo:a rdf:type foo:b .")?;
    let before = graph.clone();
    let result = graph.apply_metadata();
    assert_eq!(result, Err(Error::UnresolvedPrefix("foo:".to_string())));
    // The failed canonicalization leaves the graph untouched.
    assert_eq!(graph, before);
    Ok(())
}

#[test]
fn literal_text_carries_datatype_and_language() {
    let plain = Literal::from_value("\"hi\"");
    assert_eq!(plain.to_text(), "\"hi\"^^xsd:string");

    let tagged = Literal {
        value: "\"hi\"".to_string(),
        datatype: Uri::new("xsd:", "string", UriType::Prefixed),
        language: Some("en".to_string()),
    };
    assert_eq!(tagged.to_text(), "\"hi\"^^xsd:string@en");

    let object = Object::Literal(tagged.clone());
    assert!(object.is_literal());
    assert!(!object.is_resource());
    assert_eq!(object.literal(), Some(&tagged));
    assert_eq!(object.resource(), None);
}

#[test]
fn prefix_compression_restores_prefixed_form() -> TestReturn {
    let mut graph = TurtleParser::graph(
        "@prefix foaf: <http://xmlns.com/ns/> . \
         <http://xmlns.com/ns/john> <http://xmlns.com/ns/knows> <http://xmlns.com/ns/jane> .",
    )?;
    graph.apply_prefixes();
    assert_eq!(graph.triples[0].to_text(), "foaf:john foaf:knows foaf:jane .");
    Ok(())
}
