//! The RDF-Schema rule set: thirteen fixed entailment rules encoding the
//! RDFS semantics (domain and range, subclass and subproperty hierarchies,
//! typing, container membership and datatype rules).

use vstd::prelude::*;
use crate::reasoning::entailment::{Entailment, RuleKind, rule_wf};
use crate::reasoning::base::BaseReasoner;

verus! {

/// The thirteen RDFS rules, in their fixed order.
pub open spec fn rdfs_rules() -> Seq<Entailment> {
    seq![
        Entailment { input_length: 1, output_length: 2, kind: RuleKind::Rdfs1 },
        Entailment { input_length: 2, output_length: 1, kind: RuleKind::Rdfs2 },
        Entailment { input_length: 2, output_length: 1, kind: RuleKind::Rdfs3 },
        Entailment { input_length: 1, output_length: 2, kind: RuleKind::Rdfs4 },
        Entailment { input_length: 2, output_length: 1, kind: RuleKind::Rdfs5 },
        Entailment { input_length: 1, output_length: 1, kind: RuleKind::Rdfs6 },
        Entailment { input_length: 2, output_length: 1, kind: RuleKind::Rdfs7 },
        Entailment { input_length: 1, output_length: 1, kind: RuleKind::Rdfs8 },
        Entailment { input_length: 2, output_length: 1, kind: RuleKind::Rdfs9 },
        Entailment { input_length: 1, output_length: 1, kind: RuleKind::Rdfs10 },
        Entailment { input_length: 2, output_length: 1, kind: RuleKind::Rdfs11 },
        Entailment { input_length: 1, output_length: 1, kind: RuleKind::Rdfs12 },
        Entailment { input_length: 1, output_length: 1, kind: RuleKind::Rdfs13 },
    ]
}

/// The reasoner over the RDFS rule set.
pub struct RDFSReasoner;

impl BaseReasoner for RDFSReasoner {
    open spec fn spec_rules() -> Seq<Entailment> {
        rdfs_rules()
    }

    fn get_entailment_patterns() -> (r: Vec<Entailment>)
        ensures
            r@ == Self::spec_rules(),
            forall|k: int| 0 <= k < r@.len() ==> rule_wf(#[trigger] r@[k]),
    {
        let mut rules: Vec<Entailment> = Vec::new();
        rules.push(Entailment { input_length: 1, output_length: 2, kind: RuleKind::Rdfs1 });
        rules.push(Entailment { input_length: 2, output_length: 1, kind: RuleKind::Rdfs2 });
        rules.push(Entailment { input_length: 2, output_length: 1, kind: RuleKind::Rdfs3 });
        rules.push(Entailment { input_length: 1, output_length: 2, kind: RuleKind::Rdfs4 });
        rules.push(Entailment { input_length: 2, output_length: 1, kind: RuleKind::Rdfs5 });
        rules.push(Entailment { input_length: 1, output_length: 1, kind: RuleKind::Rdfs6 });
        rules.push(Entailment { input_length: 2, output_length: 1, kind: RuleKind::Rdfs7 });
        rules.push(Entailment { input_length: 1, output_length: 1, kind: RuleKind::Rdfs8 });
        rules.push(Entailment { input_length: 2, output_length: 1, kind: RuleKind::Rdfs9 });
        rules.push(Entailment { input_length: 1, output_length: 1, kind: RuleKind::Rdfs10 });
        rules.push(Entailment { input_length: 2, output_length: 1, kind: RuleKind::Rdfs11 });
        rules.push(Entailment { input_length: 1, output_length: 1, kind: RuleKind::Rdfs12 });
        rules.push(Entailment { input_length: 1, output_length: 1, kind: RuleKind::Rdfs13 });
        proof {
            assert(rules@ =~= rdfs_rules());
            assert forall|k: int| 0 <= k < rules@.len() implies rule_wf(#[trigger] rules@[k]) by {
                assert(rules@[k] == rdfs_rules()[k]);
            }
        }
        rules
    }
}

} // verus!
