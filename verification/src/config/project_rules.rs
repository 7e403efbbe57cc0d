//! The rules that hold for the whole project.

use vstd::prelude::*;

verus! {

/// A rule in words.
#[derive(Debug)]
pub struct Rule {
    pub description: String,
}

impl View for Rule {
    type V = Seq<char>;

    open spec fn view(&self) -> Seq<char> {
        self.description@
    }
}

/// The texts of a row of rules.
pub open spec fn rule_texts(rules: Seq<Rule>) -> Seq<Seq<char>> {
    Seq::new(rules.len(), |i: int| rules[i]@)
}

/// The rules of the whole project, in words.
pub open spec fn project_rules() -> Seq<Seq<char>> {
    seq![
        "For Python code, conform to PEP8"@,
        "For Rust Code, don't enforce safety checks"@,
        "For every hook in src/layer/* make sure a test is implemented in e2e/file.rs"@,
    ]
}

/// The rules of the whole project.
pub fn load_project_rules() -> (rules: Vec<Rule>)
    ensures
        rule_texts(rules@) == project_rules(),
{
    let mut rules: Vec<Rule> = Vec::new();
    rules.push(Rule { description: "For Python code, conform to PEP8".to_owned() });
    rules.push(Rule { description: "For Rust Code, don't enforce safety checks".to_owned() });
    rules.push(
        Rule {
            description:
                "For every hook in src/layer/* make sure a test is implemented in e2e/file.rs".to_owned(),
        },
    );
    rules
}

} // verus!
