//! Pairs the rule comments of a file with the declarations that follow
//! them.

use crate::parser::syntax::{
    all_nest_within, first_misfit, lowered_all, parse_declarations, shift_for, spans_fit,
    Declaration, Shape, SyntaxError,
};
use crate::rules::generic::{
    extract_rule_map, marker_rule, rule_for_line, rule_lines, rule_map_of, rule_views, Rule,
    RuleView, RuleWithCode, UnitView,
};
use std::collections::HashMap;
use std::sync::Arc;
use vstd::prelude::*;
use vstd::utf8::encode_utf8;

verus! {

broadcast use vstd::std_specs::hash::group_hash_axioms;

/// Why a file yields no pairs.
#[derive(Debug)]
pub enum CorrelationError {
    /// The text yields no declarations.
    Syntax { error: SyntaxError },
    /// The top-level declaration at this index has a span that is no piece
    /// of the text.
    SpanOutsideText { index: usize },
}

/// The kind of a declaration that can carry a rule, in a word; `None` for
/// the shapes that cannot.
pub open spec fn kind_label(shape: Shape) -> Option<Seq<char>> {
    match shape {
        Shape::Enum => Some("enum"@),
        Shape::Function { is_async } => Some("function"@),
        Shape::Struct => Some("struct"@),
        Shape::Module { content } => Some("mod"@),
        _ => None,
    }
}

/// The pair that `decl` gives rise to in a file with the text `text`:
/// one where `rules` has a rule for the line that the declaration starts on
/// and the declaration is of a kind that can carry one.
pub open spec fn unit_for(rules: Map<usize, RuleView>, text: Seq<char>, decl: Declaration)
    -> Option<UnitView> {
    if rules.contains_key(decl.span.start_line) {
        match kind_label(decl.shape) {
            Some(code_type) => Some(
                UnitView {
                    rule: rules[decl.span.start_line].description,
                    code_type,
                    item_name: decl.name@,
                    text,
                    start: decl.span.start as nat,
                    end: decl.span.end as nat,
                },
            ),
            None => None,
        }
    } else {
        None
    }
}

/// The pairs of a file with the text `text`, the rules `rules` and the
/// top-level declarations `decls`: one for each declaration that
/// [`unit_for`] gives one, in the order of the declarations.
pub open spec fn correlated(rules: Map<usize, RuleView>, text: Seq<char>, decls: Seq<Declaration>)
    -> Seq<UnitView> {
    decls.filter_map(|decl: Declaration| unit_for(rules, text, decl))
}

/// The values of a row of pairs.
pub open spec fn unit_views(units: Seq<RuleWithCode>) -> Seq<UnitView> {
    Seq::new(units.len(), |i: int| units[i]@)
}

/// `Arc::clone`: one more handle to the same text.
#[verifier::external_body]
fn share(text: &Arc<String>) -> (r: Arc<String>)
    ensures
        r@ == text@,
{
    Arc::clone(text)
}

/// The word for the kind of a declaration that can carry a rule.
fn label_of(shape: &Shape) -> (r: Option<String>)
    ensures
        match r {
            Some(label) => kind_label(*shape) == Some(label@),
            None => kind_label(*shape) is None,
        },
{
    match shape {
        Shape::Enum => Some("enum".to_owned()),
        Shape::Function { is_async } => Some("function".to_owned()),
        Shape::Struct => Some("struct".to_owned()),
        Shape::Module { content } => Some("mod".to_owned()),
        _ => None,
    }
}

/// Pairs each top-level declaration of a file with the rule for the line
/// it starts on, if there is one. A declaration without a rule gives no
/// pair, nor does one of a kind that cannot carry a rule; a rule without a
/// declaration gives none either.
pub fn correlate(content: &Arc<String>, rules: &HashMap<usize, Rule>, decls: &Vec<Declaration>)
    -> (units: Vec<RuleWithCode>)
    requires
        spans_fit(decls@, encode_utf8(content@)),
    ensures
        unit_views(units@) == correlated(rule_views(rules@), content@, decls@),
{
    let mut units: Vec<RuleWithCode> = Vec::new();
    let ghost pick = |decl: Declaration| unit_for(rule_views(rules@), content@, decl);
    let mut i: usize = 0;
    while i < decls.len()
        invariant
            i <= decls.len(),
            spans_fit(decls@, encode_utf8(content@)),
            pick == |decl: Declaration| unit_for(rule_views(rules@), content@, decl),
            unit_views(units@) == decls@.take(i as int).filter_map(pick),
        decreases decls.len() - i,
    {
        let decl = &decls[i];
        proof {
            assert(decls@.take(i + 1).drop_last() =~= decls@.take(i as int));
        }
        match rules.get(&decl.span.start_line) {
            Some(rule) => {
                match label_of(&decl.shape) {
                    Some(code_type) => {
                        let unit = RuleWithCode::new(
                            rule.description.clone(),
                            share(content),
                            code_type,
                            decl.name.clone(),
                            decl.span.start..decl.span.end,
                        );
                        units.push(unit);
                    },
                    None => {},
                }
            },
            None => {},
        }
        i = i + 1;
    }
    assert(decls@.take(i as int) =~= decls@);
    units
}

/// The line of `decl` if it has a rule in `rules` and is of a kind that
/// cannot carry one.
pub open spec fn skipped_line(rules: Map<usize, RuleView>, decl: Declaration) -> Option<usize> {
    if rules.contains_key(decl.span.start_line) && kind_label(decl.shape) is None {
        Some(decl.span.start_line)
    } else {
        None
    }
}

/// The lines of the declarations of `decls` that have a rule in `rules`
/// and give no pair, in order.
pub open spec fn skipped(rules: Map<usize, RuleView>, decls: Seq<Declaration>) -> Seq<usize> {
    decls.filter_map(|decl: Declaration| skipped_line(rules, decl))
}

/// The lines of the declarations that have a rule and are passed over
/// because their kind cannot carry one.
pub fn unsupported(rules: &HashMap<usize, Rule>, decls: &Vec<Declaration>) -> (r: Vec<usize>)
    ensures
        r@ == skipped(rule_views(rules@), decls@),
{
    let mut found: Vec<usize> = Vec::new();
    let ghost pick = |decl: Declaration| skipped_line(rule_views(rules@), decl);
    let mut i: usize = 0;
    while i < decls.len()
        invariant
            i <= decls.len(),
            pick == |decl: Declaration| skipped_line(rule_views(rules@), decl),
            found@ == decls@.take(i as int).filter_map(pick),
        decreases decls.len() - i,
    {
        let decl = &decls[i];
        proof {
            assert(decls@.take(i + 1).drop_last() =~= decls@.take(i as int));
        }
        if rules.contains_key(&decl.span.start_line) && label_of(&decl.shape).is_none() {
            found.push(decl.span.start_line);
        }
        i = i + 1;
    }
    assert(decls@.take(i as int) =~= decls@);
    found
}

/// The lines of the declarations of `content` that have a rule and are
/// passed over because their kind cannot carry one; none where the text
/// yields no declarations.
pub fn unsupported_in(content: &str) -> (r: Vec<usize>)
    ensures
        match crate::parser::syntax::parsed(content@) {
            Some((items, shebang)) => if all_nest_within(items, content.len() as nat) {
                exists|decls: Seq<Declaration>| #[trigger]
                    lowered_all(items, shift_for(content@, shebang), decls) && r@ == skipped(
                        rule_map_of(content@),
                        decls,
                    )
            } else {
                r@.len() == 0
            },
            None => r@.len() == 0,
        },
{
    match parse_declarations(content) {
        Ok(decls) => unsupported(&extract_rule_map(content), &decls),
        Err(_) => Vec::new(),
    }
}

/// Pairs the rules of `content` with what the parser made of it: the
/// pairs of [`correlated`] for the declarations, the parser's error where
/// it gave one, and the first declaration whose span is no piece of the
/// text where there is such a one.
pub fn correlate_parsed(content: &str, parsed: Result<Vec<Declaration>, SyntaxError>) -> (r: Result<
    Vec<RuleWithCode>,
    CorrelationError,
>)
    ensures
        match r {
            Ok(units) => parsed matches Ok(decls) && spans_fit(decls@, encode_utf8(content@))
                && unit_views(units@) == correlated(rule_map_of(content@), content@, decls@),
            Err(CorrelationError::Syntax { error }) => parsed == Err::<
                Vec<Declaration>,
                SyntaxError,
            >(error),
            Err(CorrelationError::SpanOutsideText { index }) => parsed matches Ok(decls) && index
                < decls.len() && !decls[index as int].span.fits(encode_utf8(content@)) && spans_fit(
                decls@.take(index as int),
                encode_utf8(content@),
            ),
        },
{
    match parsed {
        Err(error) => Err(CorrelationError::Syntax { error }),
        Ok(decls) => match first_misfit(&decls, content) {
            Some(index) => Err(CorrelationError::SpanOutsideText { index }),
            None => {
                let rules = extract_rule_map(content);
                let shared = Arc::new(content.to_owned());
                Ok(correlate(&shared, &rules, &decls))
            },
        },
    }
}

/// Whether `r` is what the declarations `decls` of a file with the text
/// `content` give: the pairs of [`correlated`] where every span is a piece
/// of the text, else the first declaration whose span is none.
pub open spec fn paired(
    content: Seq<char>,
    decls: Seq<Declaration>,
    r: Result<Vec<RuleWithCode>, CorrelationError>,
) -> bool {
    match r {
        Ok(units) => spans_fit(decls, encode_utf8(content)) && unit_views(units@) == correlated(
            rule_map_of(content),
            content,
            decls,
        ),
        Err(CorrelationError::SpanOutsideText { index }) => index < decls.len() && !decls[index as int].span.fits(
            encode_utf8(content),
        ) && spans_fit(decls.take(index as int), encode_utf8(content)),
        Err(CorrelationError::Syntax { error }) => false,
    }
}

/// Reads the rules and the declarations out of `content` and pairs them.
///
/// Fails where the parser does not take the text for a source file, and
/// where modules nest deeper than the text has bytes. Else the result is
/// what the declarations of the items that the parser found give: see
/// [`paired`]. What the parser finds in a text is named by
/// [`crate::parser::syntax::parsed`], not spelled out.
pub fn parse_rust_file(content: &str) -> (r: Result<Vec<RuleWithCode>, CorrelationError>)
    ensures
        match crate::parser::syntax::parsed(content@) {
            None => r matches Err(
                CorrelationError::Syntax { error: SyntaxError::Unparsable { message } },
            ),
            Some((items, shebang)) => if all_nest_within(items, content.len() as nat) {
                exists|decls: Seq<Declaration>| #[trigger]
                    lowered_all(items, shift_for(content@, shebang), decls) && paired(
                        content@,
                        decls,
                        r,
                    )
            } else {
                r matches Err(CorrelationError::Syntax { error: SyntaxError::TooDeep })
            },
        },
{
    correlate_parsed(content, parse_declarations(content))
}

/// Whether `decl` is of a kind that can carry a rule and starts on the line
/// after a marker comment of `text`.
pub open spec fn is_annotated(text: Seq<char>, decl: Declaration) -> bool {
    kind_label(decl.shape) is Some && rule_for_line(text, decl.span.start_line) is Some
}

/// The declarations of `decls` that are annotated in `text`, in order.
pub open spec fn annotated(text: Seq<char>, decls: Seq<Declaration>) -> Seq<Declaration> {
    decls.filter(|decl: Declaration| is_annotated(text, decl))
}

/// A file gives exactly one pair for each declaration that can carry a
/// rule and starts on the line after a marker comment, in the order of the
/// declarations; the pair holds the comment's text without the white space
/// at its ends, and the kind, name and span of its declaration.
pub proof fn lemma_one_unit_per_annotated_declaration(text: Seq<char>, decls: Seq<Declaration>)
    ensures
        correlated(rule_map_of(text), text, decls).len() == annotated(text, decls).len(),
        forall|k: int|
            0 <= k < annotated(text, decls).len() ==> {
                let unit = #[trigger] correlated(rule_map_of(text), text, decls)[k];
                let decl = annotated(text, decls)[k];
                &&& is_annotated(text, decl)
                &&& Some(unit.rule) == marker_rule(rule_lines(text)[decl.span.start_line - 2])
                &&& Some(unit.code_type) == kind_label(decl.shape)
                &&& unit.item_name == decl.name@
                &&& unit.text == text
                &&& unit.start == decl.span.start
                &&& unit.end == decl.span.end
            },
    decreases decls.len(),
{
    reveal(Seq::filter);
    if decls.len() > 0 {
        lemma_one_unit_per_annotated_declaration(text, decls.drop_last());
    }
}

/// Which declarations give the pairs: the indices of those of `decls` that
/// [`unit_for`] gives a pair, in order.
pub open spec fn sources(rules: Map<usize, RuleView>, text: Seq<char>, decls: Seq<Declaration>)
    -> Seq<int>
    decreases decls.len(),
{
    if decls.len() == 0 {
        Seq::empty()
    } else if unit_for(rules, text, decls.last()) is Some {
        sources(rules, text, decls.drop_last()).push(decls.len() - 1)
    } else {
        sources(rules, text, decls.drop_last())
    }
}

/// The pairs keep the order of the declarations: each pair is the pair of
/// one declaration, with that declaration's byte range, and a pair that
/// comes later is that of a declaration that comes later.
pub proof fn lemma_units_keep_order(
    rules: Map<usize, RuleView>,
    text: Seq<char>,
    decls: Seq<Declaration>,
)
    ensures
        sources(rules, text, decls).len() == correlated(rules, text, decls).len(),
        forall|k: int|
            0 <= k < sources(rules, text, decls).len() ==> {
                let at = #[trigger] sources(rules, text, decls)[k];
                &&& 0 <= at < decls.len()
                &&& unit_for(rules, text, decls[at]) == Some(correlated(rules, text, decls)[k])
                &&& correlated(rules, text, decls)[k].start == decls[at].span.start
                &&& correlated(rules, text, decls)[k].end == decls[at].span.end
            },
        forall|i: int, j: int|
            0 <= i < j < sources(rules, text, decls).len() ==> #[trigger] sources(
                rules,
                text,
                decls,
            )[i] < #[trigger] sources(rules, text, decls)[j],
    decreases decls.len(),
{
    if decls.len() > 0 {
        lemma_units_keep_order(rules, text, decls.drop_last());
    }
}

/// A rule for a line on which no declaration starts gives no pair: the
/// pairs are the same without it.
pub proof fn lemma_rule_without_declaration(
    rules: Map<usize, RuleView>,
    text: Seq<char>,
    decls: Seq<Declaration>,
    line: usize,
)
    requires
        forall|i: int| 0 <= i < decls.len() ==> (#[trigger] decls[i]).span.start_line != line,
    ensures
        correlated(rules.remove(line), text, decls) == correlated(rules, text, decls),
    decreases decls.len(),
{
    if decls.len() > 0 {
        lemma_rule_without_declaration(rules, text, decls.drop_last(), line);
    }
}

/// Of two marker comments on the lines right before a declaration, the
/// later one counts: where the lines `first` and `first + 1` of `text`,
/// counted from 1, are marker comments and its one declaration starts on
/// the line after them, the file gives one pair, with the rule of the
/// second comment.
pub proof fn lemma_later_comment_wins(text: Seq<char>, decl: Declaration, first: usize)
    requires
        1 <= first,
        first + 2 <= usize::MAX,
        first < rule_lines(text).len(),
        marker_rule(rule_lines(text)[first - 1]) is Some,
        marker_rule(rule_lines(text)[first as int]) is Some,
        decl.span.start_line == first + 2,
        kind_label(decl.shape) is Some,
    ensures
        correlated(rule_map_of(text), text, seq![decl]).len() == 1,
        Some(correlated(rule_map_of(text), text, seq![decl])[0].rule) == marker_rule(
            rule_lines(text)[first as int],
        ),
{
    let decls = seq![decl];
    reveal_with_fuel(Seq::filter_map, 2);
}

} // verus!
