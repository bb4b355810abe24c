use rdf_rs::parsing::ParserError;
use rdf_rs::parsing::turtle::TurtleParser;
use rdf_rs::reasoning::base::BaseReasoner;
use rdf_rs::reasoning::rdfs::RDFSReasoner;
use rdf_rs::triple::Triple;

type TestReturn = Result<(), ParserError>;

#[test]
fn rdfs_reasoning() -> TestReturn {
    let entailment_rules = &RDFSReasoner::get_entailment_patterns();

    // rdfs1
    {
        let triple = TurtleParser::triple("_:a _:b \"5.0\"^^xsd:string .")?;
        let rdfs1 = &entailment_rules[0];
        assert!(rdfs1.verify(&triple));

        let new_triples = rdfs1.apply(&triple);
        let expected_triples =
            TurtleParser::graph("_:blank1 rdf:type xsd:string . _:a _:b _:blank1 .")?.triples;
        assert_eq!(new_triples, expected_triples);
    }

    // rdfs2
    {
        let graph = TurtleParser::graph("_:a rdfs:domain _:x . _:y _:a _:z .")?;
        let triples = &graph.triples;
        let rdfs2 = &entailment_rules[1];
        assert!(rdfs2.verify(&triples));

        let new_triples = rdfs2.apply(&triples);
        let expected_triple = TurtleParser::triple("_:y rdf:type _:x .")?;
        assert_eq!(new_triples, expected_triple);
    }

    // rdfs3
    {
        let graph = TurtleParser::graph("_:a rdfs:range _:x . _:y _:a _:z .")?;
        let triples = &graph.triples;
        let rdfs3 = &entailment_rules[2];
        assert!(rdfs3.verify(&triples));

        let new_triples = rdfs3.apply(&triples);
        let expected_triple = TurtleParser::triple("_:z rdf:type _:x .")?;
        assert_eq!(new_triples, expected_triple);
    }

    // rdfs4
    {
        let triple = TurtleParser::triple("_:x _:a _:y .")?;
        let rdfs4 = &entailment_rules[3];
        assert!(rdfs4.verify(&triple));

        let new_triples = rdfs4.apply(&triple);
        let expected_triples =
            TurtleParser::graph("_:x rdf:type rdfs:Resource . _:y rdf:type rdfs:Resource .")?
                .triples;
        assert_eq!(new_triples, expected_triples);
    }

    // rdfs5
    {
        let triples =
            TurtleParser::graph("_:x rdfs:subPropertyOf _:y . _:y rdfs:subPropertyOf _:z .")?
                .triples;
        let rdfs5 = &entailment_rules[4];
        assert!(rdfs5.verify(&triples));

        let new_triple = rdfs5.apply(&triples);
        let expected_triple = TurtleParser::triple("_:x rdfs:subPropertyOf _:z .")?;
        assert_eq!(new_triple, expected_triple);
    }

    // rdfs6
    {
        let triple = TurtleParser::triple("_:x rdf:type rdf:Property .")?;
        let rdfs6 = &entailment_rules[5];
        assert!(rdfs6.verify(&triple));

        let new_triple = rdfs6.apply(&triple);
        let expected_triple = TurtleParser::triple("_:x rdfs:subPropertyOf _:x .")?;
        assert_eq!(new_triple, expected_triple);
    }

    // rdfs7
    {
        let triples = TurtleParser::graph("_:a rdfs:subPropertyOf _:b . _:x _:a _:y .")?.triples;
        let rdfs7 = &entailment_rules[6];
        assert!(rdfs7.verify(&triples));

        let new_triple = rdfs7.apply(&triples);
        let expected_triple = TurtleParser::triple("_:x _:b _:y .")?;
        assert_eq!(new_triple, expected_triple);
    }

    // rdfs8
    {
        let triple = TurtleParser::triple("_:x rdf:type rdfs:Class .")?;
        let rdfs8 = &entailment_rules[7];
        assert!(rdfs8.verify(&triple));

        let new_triple = rdfs8.apply(&triple);
        let expected_triple = TurtleParser::triple("_:x rdfs:subClassOf rdfs:Resource .")?;
        assert_eq!(new_triple, expected_triple);
    }

    // rdfs9
    {
        let triples = TurtleParser::graph("_:x rdfs:subClassOf _:y . _:z rdf:type _:x .")?.triples;
        let rdfs9 = &entailment_rules[8];
        assert!(rdfs9.verify(&triples));

        let new_triple = rdfs9.apply(&triples);
        let expected_triple = TurtleParser::triple("_:z rdf:type _:y .")?;
        assert_eq!(new_triple, expected_triple);
    }

    // rdfs10
    {
        let triple = TurtleParser::triple("_:x rdf:type rdfs:Class .")?;
        let rdfs10 = &entailment_rules[9];
        assert!(rdfs10.verify(&triple));

        let new_triple = rdfs10.apply(&triple);
        let expected_triple = TurtleParser::triple("_:x rdfs:subClassOf _:x .")?;
        assert_eq!(new_triple, expected_triple);
    }

    // rdfs11
    {
        let triples =
            TurtleParser::graph("_:x rdfs:subClassOf _:y . _:y rdfs:subClassOf _:z .")?.triples;
        let rdfs11 = &entailment_rules[10];
        assert!(rdfs11.verify(&triples));

        let new_triple = rdfs11.apply(&triples);
        let expected_triple = TurtleParser::triple("_:x rdfs:subClassOf _:z .")?;
        assert_eq!(new_triple, expected_triple);
    }

    // rdfs12
    {
        let triple = TurtleParser::triple("_:x rdf:type rdfs:ContainerMembershipProperty .")?;
        let rdfs12 = &entailment_rules[11];
        assert!(rdfs12.verify(&triple));

        let new_triple = rdfs12.apply(&triple);
        let expected_triple = TurtleParser::triple("_:x rdfs:subPropertyOf rdfs:member .")?;
        assert_eq!(new_triple, expected_triple);
    }

    // rdfs13
    {
        let triple = TurtleParser::triple("_:x rdf:type rdfs:Datatype .")?;
        let rdfs13 = &entailment_rules[12];
        assert!(rdfs13.verify(&triple));

        let new_triple = rdfs13.apply(&triple);
        let expected_triple = TurtleParser::triple("_:x rdfs:subClassOf rdfs:Literal .")?;
        assert_eq!(new_triple, expected_triple);
    }

    Ok(())
}

fn texts(triples: &[Triple]) -> Vec<String> {
    triples.iter().map(|t| t.to_text()).collect()
}

#[test]
fn depth_one_domain_closure() -> TestReturn {
    let facts = TurtleParser::graph("_:a rdfs:domain _:x . _:y _:a _:z .")?.triples;
    let inferred = RDFSReasoner::get_inferred_triples(facts, 1);

    // The domain rule yields the typing fact; the resource-typing rule
    // also types each node, so the closure holds both kinds, sorted by
    // canonical text and deduplicated.
    let got = texts(&inferred);
    assert!(got.contains(&"_:y rdf:type _:x .".to_string()));
    let expected = vec![
        "_:a rdf:type rdfs:Resource .".to_string(),
        "_:x rdf:type rdfs:Resource .".to_string(),
        "_:y rdf:type _:x .".to_string(),
        "_:y rdf:type rdfs:Resource .".to_string(),
        "_:z rdf:type rdfs:Resource .".to_string(),
    ];
    assert_eq!(got, expected);

    Ok(())
}

#[test]
fn depth_zero_infers_nothing() -> TestReturn {
    let facts = TurtleParser::graph("_:a rdfs:domain _:x . _:y _:a _:z .")?.triples;
    assert!(!facts.is_empty());
    let inferred = RDFSReasoner::get_inferred_triples(facts, 0);
    assert_eq!(inferred.len(), 0);

    Ok(())
}

#[test]
fn chains_advance_one_hop_per_level() -> TestReturn {
    let facts = TurtleParser::graph(
        "_:x rdfs:subClassOf _:y . _:y rdfs:subClassOf _:z . _:z rdfs:subClassOf _:w .",
    )?
    .triples;

    let depth_one = texts(&RDFSReasoner::get_inferred_triples(facts.clone(), 1));
    assert!(depth_one.contains(&"_:x rdfs:subClassOf _:z .".to_string()));
    assert!(depth_one.contains(&"_:y rdfs:subClassOf _:w .".to_string()));
    assert!(!depth_one.contains(&"_:x rdfs:subClassOf _:w .".to_string()));

    // Each level pairs facts of that level's working set alone, so the
    // two-hop facts of level one cannot combine with the original facts:
    // the three-hop conclusion stays out at depth two as well.
    let depth_two = texts(&RDFSReasoner::get_inferred_triples(facts, 2));
    assert!(depth_two.contains(&"_:x rdfs:subClassOf _:z .".to_string()));
    assert!(depth_two.contains(&"_:y rdfs:subClassOf _:w .".to_string()));
    assert!(!depth_two.contains(&"_:x rdfs:subClassOf _:w .".to_string()));

    Ok(())
}

#[test]
fn duplicate_inputs_never_duplicate_output() -> TestReturn {
    let mut facts = TurtleParser::triple("_:a rdfs:subClassOf _:b .")?;
    let mut again = TurtleParser::triple("_:a rdfs:subClassOf _:b .")?;
    facts.append(&mut again);
    assert_eq!(facts.len(), 2);
    assert_eq!(facts[0], facts[1]);

    let inferred = RDFSReasoner::get_inferred_triples(facts, 1);
    let got = texts(&inferred);
    for i in 0..got.len() {
        for j in (i + 1)..got.len() {
            assert_ne!(got[i], got[j]);
        }
    }
    assert_eq!(
        got,
        vec![
            "_:a rdf:type rdfs:Resource .".to_string(),
            "_:b rdf:type rdfs:Resource .".to_string(),
        ]
    );

    Ok(())
}

#[test]
fn inferred_facts_exclude_inputs() -> TestReturn {
    // A cyclic hierarchy: the closure may only return facts that are new.
    let facts = TurtleParser::graph("_:x rdfs:subClassOf _:y . _:y rdfs:subClassOf _:x .")?.triples;
    let input_texts = texts(&facts);
    let inferred = RDFSReasoner::get_inferred_triples(facts, 3);
    for t in texts(&inferred) {
        assert!(!input_texts.contains(&t));
    }

    Ok(())
}
