//! Rule comments, the map from lines to rules, and a rule paired with the
//! code it is about.

use crate::text::{
    is_blank, is_blank_text, is_piece, lemma_boundary_in_prefix, lines, piece, split_lines,
    strip_mark, text_of, texts, trim, trimmed, without_mark,
};
use std::collections::HashMap;
use std::ops::Range;
use std::sync::Arc;
use vstd::prelude::*;
use vstd::string::StringExecFns;
use vstd::string::StringSliceAdditionalSpecFns;
use vstd::utf8::encode_utf8;

verus! {

broadcast use vstd::std_specs::hash::group_hash_axioms;

/// The pattern of a rule comment: two slashes, blanks, the marker with its
/// colon, blanks, and the rule's text as the one group.
pub const MARKER_PATTERN: &'static str = "// +#AIRULE: +(.+)";

/// A rule: what a marker comment says, and the line the comment stands on,
/// counted from 1.
#[derive(Debug)]
pub struct Rule {
    pub description: String,
    pub source_line: usize,
}

/// The mathematical value of a [`Rule`].
pub struct RuleView {
    pub description: Seq<char>,
    pub source_line: nat,
}

impl View for Rule {
    type V = RuleView;

    open spec fn view(&self) -> RuleView {
        RuleView { description: self.description@, source_line: self.source_line as nat }
    }
}

impl Clone for Rule {
    fn clone(&self) -> (r: Self)
        ensures
            r == *self,
    {
        Rule { description: self.description.clone(), source_line: self.source_line }
    }
}

/// `regex::Regex`, a compiled pattern.
#[verifier::external_type_specification]
#[verifier::external_body]
pub struct ExRegex(regex::Regex);

/// Whether the `regex` crate takes `pattern` for a pattern: whether
/// `Regex::new` compiles it.
pub uninterp spec fn is_pattern(pattern: Seq<char>) -> bool;

/// The pattern that `compiled` was made from: what `Regex::as_str` gives.
pub uninterp spec fn pattern_of(compiled: regex::Regex) -> Seq<char>;

/// What `Regex::captures` finds in `line` for an expression that
/// `Regex::new` made from `pattern`: where there is a match, the part of the line in front of the
/// leftmost one and the text of its first group.
pub uninterp spec fn first_match(pattern: Seq<char>, line: Seq<char>) -> Option<
    (Seq<char>, Seq<char>),
>;

/// The texts of an optional pair of strings.
pub open spec fn pair_text(pair: Option<(String, String)>) -> Option<(Seq<char>, Seq<char>)> {
    match pair {
        Some((before, group)) => Some((before@, group@)),
        None => None,
    }
}

/// An expression that [`compile`] made with `Regex::new`. The field is
/// private and nothing else fills it, so what holds of the expressions that
/// `Regex::new` makes holds of every value of this type.
struct Matcher {
    compiled: regex::Regex,
}

/// `Regex::new`: compiles `pattern`, `None` where the crate refuses it.
/// Claimed: it succeeds on the patterns that [`is_pattern`] names, and the
/// expression it hands out is made from `pattern`.
#[verifier::external_body]
fn compile(pattern: &str) -> (r: Option<Matcher>)
    ensures
        r is Some <==> is_pattern(pattern@),
        r matches Some(matcher) ==> pattern_of(matcher.compiled) == pattern@,
{
    Some(Matcher { compiled: regex::Regex::new(pattern).ok()? })
}

/// `Regex::captures`: searches `line`. `None` where the line has no match
/// or the match has no first group; else the text from the start of the
/// line to `Match::start` of the whole match, and `Match::as_str` of the
/// first group. Claimed: the result is [`first_match`] of the expression's
/// pattern and the line.
#[verifier::external_body]
fn search(matcher: &Matcher, line: &str) -> (r: Option<(String, String)>)
    ensures
        pair_text(r) == first_match(pattern_of(matcher.compiled), line@),
{
    let found = matcher.compiled.captures(line)?;
    Some((line[..found.get(0)?.start()].to_string(), found.get(1)?.as_str().to_string()))
}

/// The rule text that a match of the marker pattern stands for: the first
/// group without the white space at its ends, if only white space stands in
/// front of the match.
pub open spec fn rule_text(found: Option<(Seq<char>, Seq<char>)>) -> Option<Seq<char>> {
    match found {
        Some((before, group)) => if is_blank(before) {
            Some(trimmed(group))
        } else {
            None
        },
        None => None,
    }
}

/// The rule text that a match of the marker pattern stands for: see
/// [`rule_text`].
pub fn rule_from_match(found: Option<(String, String)>) -> (r: Option<String>)
    ensures
        text_of(r) == rule_text(pair_text(found)),
{
    match found {
        Some((before, group)) => {
            if is_blank_text(before.as_str()) {
                Some(trim(group.as_str()))
            } else {
                None
            }
        },
        None => None,
    }
}

/// The rule text of a line, if the line is a marker comment: a match of
/// [`MARKER_PATTERN`] with only white space in front of it.
pub open spec fn marker_rule(line: Seq<char>) -> Option<Seq<char>> {
    if is_pattern(MARKER_PATTERN@) {
        rule_text(first_match(MARKER_PATTERN@, line))
    } else {
        None
    }
}

/// The lines in which rules are looked for: those of `text` without a byte
/// order mark at its start.
pub open spec fn rule_lines(text: Seq<char>) -> Seq<Seq<char>> {
    lines(without_mark(text))
}

/// The rule that `text` holds for the line `key`, counted from 1: the rule
/// of the marker comment on the line before it.
pub open spec fn rule_for_line(text: Seq<char>, key: usize) -> Option<RuleView> {
    if 2 <= key && key - 2 < rule_lines(text).len() {
        match marker_rule(rule_lines(text)[key - 2]) {
            Some(description) => Some(RuleView { description, source_line: (key - 1) as nat }),
            None => None,
        }
    } else {
        None
    }
}

/// The rules of `text`, each under the number of the line that follows its
/// comment.
pub open spec fn rule_map_of(text: Seq<char>) -> Map<usize, RuleView> {
    Map::new(
        |key: usize| rule_for_line(text, key) is Some,
        |key: usize| rule_for_line(text, key)->0,
    )
}

/// The values of a map of rules.
pub open spec fn rule_views(rules: Map<usize, Rule>) -> Map<usize, RuleView> {
    Map::new(|key: usize| rules.contains_key(key), |key: usize| rules[key]@)
}

/// Collects the rules of `content`: each marker comment gives the rule for
/// the line that follows it.
pub fn extract_rule_map(content: &str) -> (rules: HashMap<usize, Rule>)
    ensures
        rule_views(rules@) == rule_map_of(content@),
{
    let rows = split_lines(strip_mark(content));
    let mut rules: HashMap<usize, Rule> = HashMap::new();
    let marker = match compile(MARKER_PATTERN) {
        Some(marker) => marker,
        None => {
            return rules;
        },
    };
    // A line whose follower has no number in `usize` gives no rule.
    let limit = if rows.len() < usize::MAX - 1 {
        rows.len()
    } else {
        usize::MAX - 1
    };
    let mut i: usize = 0;
    while i < limit
        invariant
            i <= limit <= rows.len(),
            limit <= usize::MAX - 1,
            texts(rows@) == rule_lines(content@),
            is_pattern(MARKER_PATTERN@),
            pattern_of(marker.compiled) == MARKER_PATTERN@,
            forall|key: usize|
                rules@.contains_key(key) <==> key - 2 < i && #[trigger] rule_for_line(
                    content@,
                    key,
                ) is Some,
            forall|key: usize|
                rules@.contains_key(key) ==> (#[trigger] rules@[key])@ == rule_for_line(
                    content@,
                    key,
                )->0,
        decreases limit - i,
    {
        match rule_from_match(search(&marker, rows[i].as_str())) {
            Some(description) => {
                rules.insert(i + 2, Rule { description, source_line: i + 1 });
            },
            None => {},
        }
        i = i + 1;
    }
    rules
}

/// The rules that hold for every project.
pub open spec fn project_rules() -> Seq<RuleView> {
    seq![
        RuleView {
            description: "For Rust Code, don't enforce safety checks"@,
            source_line: 0,
        },
    ]
}

/// The values of a row of rules.
pub open spec fn rule_row(rules: Seq<Rule>) -> Seq<RuleView> {
    Seq::new(rules.len(), |i: int| rules[i]@)
}

/// The rules that hold for every project. They stand in no file, so their
/// line is 0.
pub fn load_project_rules() -> (rules: Vec<Rule>)
    ensures
        rule_row(rules@) == project_rules(),
{
    let mut rules: Vec<Rule> = Vec::new();
    rules.push(
        Rule { description: "For Rust Code, don't enforce safety checks".to_owned(), source_line: 0 },
    );
    rules
}

/// What kind of declaration a rule stands in front of, and its name.
#[derive(Debug)]
struct RuleMetaData {
    code_type: String,
    item_name: String,
}

/// A rule with the declaration it stands in front of. The declaration's
/// text is not copied: the value shares the file's text and knows which
/// bytes of it are the declaration.
#[derive(Debug)]
pub struct RuleWithCode {
    rule: String,
    file_content: Arc<String>,
    byte_range: Range<usize>,
    meta: RuleMetaData,
}

/// The mathematical value of a [`RuleWithCode`].
pub struct UnitView {
    /// The rule's text.
    pub rule: Seq<char>,
    /// The kind of the declaration: `enum`, `function`, `struct` or `mod`.
    pub code_type: Seq<char>,
    /// The declaration's name.
    pub item_name: Seq<char>,
    /// The text of the whole file.
    pub text: Seq<char>,
    /// The offset of the declaration's first byte.
    pub start: nat,
    /// The offset of the byte after the declaration's last.
    pub end: nat,
}

impl UnitView {
    /// The declaration's text.
    pub open spec fn code(self) -> Seq<char> {
        piece(self.text, self.start as int, self.end as int)
    }

    /// The prompt made of the rule and the declaration's text.
    pub open spec fn prompt(self) -> Seq<char> {
        "\n        <rule>"@ + self.rule + "<rule>\n        <code>"@ + self.code()
            + "<code>\n        "@
    }
}

impl View for RuleWithCode {
    type V = UnitView;

    closed spec fn view(&self) -> UnitView {
        UnitView {
            rule: self.rule@,
            code_type: self.meta.code_type@,
            item_name: self.meta.item_name@,
            text: self.file_content@,
            start: self.byte_range.start as nat,
            end: self.byte_range.end as nat,
        }
    }
}

impl RuleWithCode {
    #[verifier::type_invariant]
    spec fn well_formed(self) -> bool {
        is_piece(
            encode_utf8(self.file_content@),
            self.byte_range.start as int,
            self.byte_range.end as int,
        )
    }

    /// Pairs `rule` with the declaration `item_name` of kind `code_type`,
    /// whose text is the bytes `byte_range` of `file_content`.
    pub fn new(
        rule: String,
        file_content: Arc<String>,
        code_type: String,
        item_name: String,
        byte_range: Range<usize>,
    ) -> (unit: Self)
        requires
            is_piece(encode_utf8(file_content@), byte_range.start as int, byte_range.end as int),
        ensures
            unit@ == (UnitView {
                rule: rule@,
                code_type: code_type@,
                item_name: item_name@,
                text: file_content@,
                start: byte_range.start as nat,
                end: byte_range.end as nat,
            }),
    {
        let meta = RuleMetaData { code_type, item_name };
        Self { rule, file_content, byte_range, meta }
    }

    /// The rule's text.
    pub fn rule(&self) -> (r: &str)
        ensures
            r@ == self@.rule,
    {
        self.rule.as_str()
    }

    /// The kind of the declaration.
    pub fn code_type(&self) -> (r: &str)
        ensures
            r@ == self@.code_type,
    {
        self.meta.code_type.as_str()
    }

    /// The declaration's name.
    pub fn item_name(&self) -> (r: &str)
        ensures
            r@ == self@.item_name,
    {
        self.meta.item_name.as_str()
    }

    /// The declaration's text, cut out of the file's text.
    pub fn get_code_block(&self) -> (code: &str)
        ensures
            code@ == self@.code(),
    {
        proof {
            use_type_invariant(self);
        }
        let text = self.file_content.as_str();
        let ghost bytes = text.spec_bytes();
        proof {
            vstd::utf8::encode_utf8_valid_utf8(text@);
            lemma_boundary_in_prefix(
                bytes,
                self.byte_range.start as int,
                self.byte_range.end as int,
            );
        }
        let (head, _) = text.split_at(self.byte_range.end);
        let (_, code) = head.split_at(self.byte_range.start);
        proof {
            assert(code.spec_bytes() =~= bytes.subrange(
                self.byte_range.start as int,
                self.byte_range.end as int,
            ));
            vstd::utf8::encode_utf8_decode_utf8(code@);
        }
        code
    }

    /// The prompt made of the rule and the declaration's text, each between
    /// its tags.
    pub fn to_prompt(&self) -> (prompt: String)
        ensures
            prompt@ == self@.prompt(),
    {
        let mut prompt = "\n        <rule>".to_owned();
        prompt.append(self.rule.as_str());
        prompt.append("<rule>\n        <code>");
        prompt.append(self.get_code_block());
        prompt.append("<code>\n        ");
        prompt
    }
}

} // verus!
