use melange::parser::rust_parser::{
    correlate, correlate_parsed, parse_rust_file, unsupported, unsupported_in, CorrelationError,
};
use melange::parser::syntax::{
    first_misfit, parse_declarations, Access, Declaration, Shape, Span, SyntaxError,
};
use melange::rules::generic::{
    extract_rule_map, load_project_rules, rule_from_match, Rule, RuleWithCode,
};
use std::collections::HashMap;
use std::sync::Arc;

const RUST_ENUM: &str = "// #AIRULE: enum names should be one-word only
enum Cake {
    Frosting,
    Icing,
    Coating,
    RlCherry,
}

// #AIRULE: functions should have a doc comment
fn add(a: i32, b: i32) -> i32 {
    a + b
}

// #AIRULE: unsafe functions should have a safety comment
mod cakes {
    struct MyCake {
        name: String,
        price: i32,
    }

    fn is_empty_or_zero(arr: &[u8]) -> bool {
        if arr.is_empty() {
            return true;
        }
        unsafe {
            let ptr = arr.as_ptr();
            let new_arr = std::ptr::slice_from_raw_parts(ptr, arr.len());
            let first = (&*new_arr)[0];
            first == 0
        }
    }
}
";

fn units_of(content: &str) -> Vec<RuleWithCode> {
    match parse_rust_file(content) {
        Ok(units) => units,
        Err(_) => panic!("the text parses"),
    }
}

fn plain(name: &str, line: usize, start: usize, end: usize, shape: Shape) -> Declaration {
    Declaration {
        name: name.to_string(),
        visibility: Access::Private,
        span: Span { start_line: line, start, end },
        shape,
    }
}

#[test]
fn test_parse_rust_file() {
    let rules = units_of(RUST_ENUM);
    assert!(!rules.is_empty());
}

#[test]
fn example_file_gives_three_units() {
    let units = units_of(RUST_ENUM);
    assert_eq!(units.len(), 3);
    assert_eq!(units[0].rule(), "enum names should be one-word only");
    assert_eq!(units[0].code_type(), "enum");
    assert_eq!(units[0].item_name(), "Cake");
    assert_eq!(
        units[0].get_code_block(),
        "enum Cake {\n    Frosting,\n    Icing,\n    Coating,\n    RlCherry,\n}"
    );
    assert_eq!(units[1].rule(), "functions should have a doc comment");
    assert_eq!(units[1].code_type(), "function");
    assert_eq!(units[1].item_name(), "add");
    assert_eq!(units[1].get_code_block(), "fn add(a: i32, b: i32) -> i32 {\n    a + b\n}");
    assert_eq!(units[2].rule(), "unsafe functions should have a safety comment");
    assert_eq!(units[2].code_type(), "mod");
    assert_eq!(units[2].item_name(), "cakes");
    assert!(units[2].get_code_block().starts_with("mod cakes {"));
    assert!(units[2].get_code_block().ends_with("}"));
}

#[test]
fn one_line_enum_scenario() {
    let units =
        units_of("// #AIRULE: enum names should be one-word only\nenum Cake { Frosting, Icing }\n");
    assert_eq!(units.len(), 1);
    assert_eq!(units[0].rule(), "enum names should be one-word only");
    assert_eq!(units[0].code_type(), "enum");
    assert_eq!(units[0].item_name(), "Cake");
    assert_eq!(units[0].get_code_block(), "enum Cake { Frosting, Icing }");
    assert!(units[0].to_prompt().contains("enum Cake { Frosting, Icing }"));
}

#[test]
fn prompt_has_rule_and_code_between_their_tags() {
    let units = units_of("// #AIRULE: keep it short\nstruct Unit;\n");
    assert_eq!(units.len(), 1);
    assert_eq!(
        units[0].to_prompt(),
        "\n        <rule>keep it short<rule>\n        <code>struct Unit;<code>\n        "
    );
}

#[test]
fn as_many_units_as_annotated_declarations() {
    let content = "// #AIRULE: one\nstruct A;\nstruct B;\n// #AIRULE: two\nenum C { X }\n\n// #AIRULE: three\nfn d() {}\nfn e() {}\n";
    let units = units_of(content);
    assert_eq!(units.len(), 3);
    assert_eq!(units[0].rule(), "one");
    assert_eq!(units[0].item_name(), "A");
    assert_eq!(units[1].rule(), "two");
    assert_eq!(units[1].item_name(), "C");
    assert_eq!(units[2].rule(), "three");
    assert_eq!(units[2].item_name(), "d");
}

#[test]
fn comment_without_declaration_gives_no_unit() {
    let units = units_of("// #AIRULE: lonely\n\nstruct A;\n");
    assert!(units.is_empty());
    let units = units_of("struct A;\n// #AIRULE: at the end\n");
    assert!(units.is_empty());
}

#[test]
fn later_of_two_comments_wins() {
    let units = units_of("// #AIRULE: first\n// #AIRULE: second\nstruct A;\n");
    assert_eq!(units.len(), 1);
    assert_eq!(units[0].rule(), "second");
    assert_eq!(units[0].item_name(), "A");
}

#[test]
fn code_block_parses_to_the_same_kind_and_name() {
    let units = units_of(RUST_ENUM);
    for unit in &units {
        let again = format!("// #AIRULE: again\n{}\n", unit.get_code_block());
        let second = units_of(&again);
        assert_eq!(second.len(), 1);
        assert_eq!(second[0].code_type(), unit.code_type());
        assert_eq!(second[0].item_name(), unit.item_name());
        assert_eq!(second[0].get_code_block(), unit.get_code_block());
    }
}

#[test]
fn attributes_belong_to_the_span() {
    let units = units_of("// #AIRULE: derive less\n#[derive(Debug)]\npub struct A { x: u8 }\n");
    assert_eq!(units.len(), 1);
    assert_eq!(units[0].get_code_block(), "#[derive(Debug)]\npub struct A { x: u8 }");
}

#[test]
fn comment_between_rule_and_declaration_breaks_the_pair() {
    let units = units_of("// #AIRULE: too far\n// a plain comment\nstruct A;\n");
    assert!(units.is_empty());
    let units = units_of("// #AIRULE: close enough\n/// documented\nstruct A;\n");
    assert_eq!(units.len(), 1);
    assert_eq!(units[0].get_code_block(), "/// documented\nstruct A;");
}

#[test]
fn two_declarations_on_the_line_after_a_rule_both_carry_it() {
    let units = units_of("// #AIRULE: both\nstruct A; struct B;\n");
    assert_eq!(units.len(), 2);
    assert_eq!(units[0].item_name(), "A");
    assert_eq!(units[0].get_code_block(), "struct A;");
    assert_eq!(units[1].item_name(), "B");
    assert_eq!(units[1].rule(), "both");
}

#[test]
fn spans_are_held_against_the_text() {
    let text = "a\u{e9}b";
    assert!(Span { start_line: 1, start: 0, end: 4 }.fits_text(text));
    assert!(Span { start_line: 1, start: 1, end: 3 }.fits_text(text));
    assert!(Span { start_line: 1, start: 4, end: 4 }.fits_text(text));
    assert!(!Span { start_line: 1, start: 2, end: 4 }.fits_text(text));
    assert!(!Span { start_line: 1, start: 0, end: 2 }.fits_text(text));
    assert!(!Span { start_line: 1, start: 3, end: 1 }.fits_text(text));
    assert!(!Span { start_line: 1, start: 0, end: 5 }.fits_text(text));
    let decls = vec![
        plain("a", 1, 0, 1, Shape::Struct),
        plain("b", 1, 1, 2, Shape::Struct),
        plain("c", 1, 0, 9, Shape::Struct),
    ];
    assert_eq!(first_misfit(&decls, text), Some(1));
    assert_eq!(first_misfit(&vec![plain("a", 1, 0, 1, Shape::Struct)], text), None);
}

#[test]
fn nested_declarations_are_not_reached() {
    let units = units_of("mod outer {\n    // #AIRULE: inside\n    struct Inner;\n}\n");
    assert!(units.is_empty());
}

#[test]
fn unsupported_kinds_give_no_unit() {
    let content = "// #AIRULE: no imports\nuse std::fmt;\n// #AIRULE: no impls\nimpl A {}\n// #AIRULE: fine\nstruct A;\n";
    let units = units_of(content);
    assert_eq!(units.len(), 1);
    assert_eq!(units[0].rule(), "fine");
    let decls = match parse_declarations(content) {
        Ok(decls) => decls,
        Err(_) => panic!("the text parses"),
    };
    assert_eq!(unsupported(&extract_rule_map(content), &decls), vec![2, 4]);
}

#[test]
fn unparsable_text_is_an_error() {
    match parse_rust_file("fn (") {
        Err(CorrelationError::Syntax { error: SyntaxError::Unparsable { message } }) => {
            assert!(!message.is_empty());
        }
        _ => panic!("the text does not parse"),
    }
}

#[test]
fn byte_order_mark_moves_no_span() {
    let units = units_of("\u{feff}// #AIRULE: first line\n/*\u{e9}*/struct A;\n// #AIRULE: r\nfn f() {}\n");
    assert_eq!(units.len(), 2);
    assert_eq!(units[0].rule(), "first line");
    assert_eq!(units[0].item_name(), "A");
    assert_eq!(units[0].get_code_block(), "struct A;");
    assert_eq!(units[1].item_name(), "f");
    assert_eq!(units[1].get_code_block(), "fn f() {}");
}

#[test]
fn shebang_line_moves_no_span() {
    let units = units_of("#!/usr/bin/env run\n// #AIRULE: r\nstruct A;\n\n// #AIRULE: s\nmod m { }\n");
    assert_eq!(units.len(), 2);
    assert_eq!(units[0].rule(), "r");
    assert_eq!(units[0].get_code_block(), "struct A;");
    assert_eq!(units[1].rule(), "s");
    assert_eq!(units[1].get_code_block(), "mod m { }");
    let units = units_of("\u{feff}#!/bin/run \u{e9}\n// #AIRULE: r\nenum E {}\n");
    assert_eq!(units.len(), 1);
    assert_eq!(units[0].get_code_block(), "enum E {}");
    let decls = match parse_declarations("#!shebang only") {
        Ok(decls) => decls,
        Err(_) => panic!("the text parses"),
    };
    assert!(decls.is_empty());
}

#[test]
fn inner_attribute_is_no_shebang_line() {
    let units = units_of("#![allow(dead_code)]\n// #AIRULE: r\nstruct A;\n");
    assert_eq!(units.len(), 1);
    assert_eq!(units[0].get_code_block(), "struct A;");
}

#[test]
fn parsed_spans_fit_the_text() {
    let texts = [
        "struct A;",
        "\u{feff}struct A;\nfn f() {}",
        "#!/run\nstruct A;\n",
        "\u{feff}#!/run \u{3000}\n/* \u{e9} */ pub fn \u{e9}t\u{e9}() {}\n#[cfg(test)]\nmod m { struct Inner; }",
    ];
    for text in texts {
        let decls = match parse_declarations(text) {
            Ok(decls) => decls,
            Err(_) => panic!("the text parses"),
        };
        assert!(!decls.is_empty());
        assert_eq!(first_misfit(&decls, text), None);
        for decl in &decls {
            let piece = &text[decl.span.start..decl.span.end];
            assert!(piece.ends_with(';') || piece.ends_with('}'));
            assert!(!piece.starts_with(char::is_whitespace));
            assert_eq!(text[..decl.span.start].matches('\n').count() + 1, decl.span.start_line);
        }
    }
}

#[test]
fn parsed_declarations_hold_what_the_items_say() {
    let text = "pub(crate) mod outer { mod inner; pub async fn run() {} }\nstruct S;\npub enum E { A }\nfn plain() {}\nimpl fmt::Display for S { pub fn a(&self) {} type T = u8; async fn b() {} }\nimpl<'a> T for &'a S {}\nuse std::fmt;\n";
    let decls = match parse_declarations(text) {
        Ok(decls) => decls,
        Err(_) => panic!("the text parses"),
    };
    assert_eq!(decls.len(), 7);
    assert_eq!(decls[0].name, "outer");
    assert!(matches!(&decls[0].visibility, Access::Restricted { scope: Some(s) } if s == "crate"));
    assert_eq!(decls[0].span.start_line, 1);
    match &decls[0].shape {
        Shape::Module { content: Some(inner) } => {
            assert_eq!(inner.len(), 2);
            assert_eq!(inner[0].name, "inner");
            assert!(matches!(inner[0].shape, Shape::Module { content: None }));
            assert!(matches!(inner[0].visibility, Access::Private));
            assert_eq!(inner[1].name, "run");
            assert!(matches!(inner[1].shape, Shape::Function { is_async: true }));
            assert!(matches!(inner[1].visibility, Access::Public));
            assert_eq!(&text[inner[1].span.start..inner[1].span.end], "pub async fn run() {}");
        }
        _ => panic!("a module with braces"),
    }
    assert_eq!(decls[1].name, "S");
    assert!(matches!(decls[1].shape, Shape::Struct));
    assert!(matches!(decls[1].visibility, Access::Private));
    assert_eq!(decls[1].span.start_line, 2);
    assert_eq!(decls[2].name, "E");
    assert!(matches!(decls[2].shape, Shape::Enum));
    assert!(matches!(decls[2].visibility, Access::Public));
    assert_eq!(decls[3].name, "plain");
    assert!(matches!(decls[3].shape, Shape::Function { is_async: false }));
    match &decls[4].shape {
        Shape::Impl { target: Some(target), methods } => {
            assert_eq!(target, "S");
            assert_eq!(methods.len(), 2);
            assert_eq!(methods[0].name, "a");
            assert!(matches!(methods[0].visibility, Access::Public));
            assert!(!methods[0].is_async);
            assert_eq!(methods[1].name, "b");
            assert!(matches!(methods[1].visibility, Access::Private));
            assert!(methods[1].is_async);
        }
        _ => panic!("an implementation block"),
    }
    assert_eq!(decls[4].name, "");
    assert!(matches!(decls[4].visibility, Access::Private));
    match &decls[5].shape {
        Shape::Impl { target: None, methods } => assert!(methods.is_empty()),
        _ => panic!("an implementation block for a type that is no path"),
    }
    assert!(matches!(decls[6].shape, Shape::Other));
    assert_eq!(decls[6].name, "");
    assert_eq!(&text[decls[6].span.start..decls[6].span.end], "use std::fmt;");
}

#[test]
fn paths_are_read_by_their_segments() {
    let text = "pub(in a::b::c) struct S;\nimpl x::y::Z { pub(super) fn f() {} }\nimpl Z {}\npub(self) fn g() {}\n";
    let decls = match parse_declarations(text) {
        Ok(decls) => decls,
        Err(_) => panic!("the text parses"),
    };
    assert!(matches!(&decls[0].visibility, Access::Restricted { scope: Some(s) } if s == "a"));
    match &decls[1].shape {
        Shape::Impl { target: Some(target), methods } => {
            assert_eq!(target, "Z");
            assert!(
                matches!(&methods[0].visibility, Access::Restricted { scope: Some(s) } if s == "super")
            );
        }
        _ => panic!("an implementation block"),
    }
    assert!(matches!(&decls[2].shape, Shape::Impl { target: Some(target), .. } if target == "Z"));
    assert!(matches!(&decls[3].visibility, Access::Restricted { scope: Some(s) } if s == "self"));
}

#[test]
fn unsupported_in_reads_the_text_itself() {
    assert_eq!(unsupported_in("// #AIRULE: r\nuse a::b;\n// #AIRULE: s\nstruct S;\n// #AIRULE: t\nimpl S {}\n"), vec![2, 6]);
    assert!(unsupported_in("// #AIRULE: r\nstruct S;\n").is_empty());
    assert!(unsupported_in("// #AIRULE: r\nuse (").is_empty());
}

#[test]
fn units_come_in_the_order_of_the_declarations() {
    let units = units_of("// #AIRULE: a\nfn z() {}\n// #AIRULE: b\nuse x::y;\n// #AIRULE: c\nstruct A;\nstruct Free;\n// #AIRULE: d\nmod m {}\n");
    let names: Vec<&str> = units.iter().map(|unit| unit.item_name()).collect();
    assert_eq!(names, vec!["z", "A", "m"]);
    let blocks: Vec<&str> = units.iter().map(|unit| unit.get_code_block()).collect();
    assert_eq!(blocks, vec!["fn z() {}", "struct A;", "mod m {}"]);
}

#[test]
fn text_that_is_no_source_file_gives_no_declarations() {
    match parse_declarations("struct {") {
        Err(SyntaxError::Unparsable { message }) => assert!(!message.is_empty()),
        _ => panic!("the text does not parse"),
    }
    assert!(matches!(parse_declarations(""), Ok(decls) if decls.is_empty()));
}

#[test]
fn span_moves_by_a_count_of_bytes() {
    let span = Span { start_line: 4, start: 10, end: 20 };
    assert_eq!(span.shifted(0), span);
    assert_eq!(span.shifted(3), Span { start_line: 4, start: 13, end: 23 });
    assert_eq!(
        span.shifted(usize::MAX - 15),
        Span { start_line: 4, start: usize::MAX - 5, end: usize::MAX }
    );
}

#[test]
fn multi_byte_text_is_cut_between_characters() {
    let units = units_of("// #AIRULE: caf\u{e9}\nstruct Caf\u{e9} { cr\u{e8}me: u8 }\n// tail \u{3000}\n");
    assert_eq!(units.len(), 1);
    assert_eq!(units[0].rule(), "caf\u{e9}");
    assert_eq!(units[0].item_name(), "Caf\u{e9}");
    assert_eq!(units[0].get_code_block(), "struct Caf\u{e9} { cr\u{e8}me: u8 }");
}

#[test]
fn correlate_pairs_declarations_written_by_hand() {
    let content = Arc::new("// #AIRULE: r\nenum E {}\nfn f() {}\n".to_string());
    let mut rules: HashMap<usize, Rule> = HashMap::new();
    rules.insert(2, Rule { description: "r".to_string(), source_line: 1 });
    rules.insert(3, Rule { description: "s".to_string(), source_line: 2 });
    rules.insert(9, Rule { description: "t".to_string(), source_line: 8 });
    let decls = vec![
        plain("E", 2, 14, 23, Shape::Enum),
        plain("", 2, 14, 23, Shape::Other),
        plain("f", 3, 24, 33, Shape::Function { is_async: false }),
        plain("g", 4, 0, 0, Shape::Struct),
    ];
    let units = correlate(&content, &rules, &decls);
    assert_eq!(units.len(), 2);
    assert_eq!(units[0].rule(), "r");
    assert_eq!(units[0].code_type(), "enum");
    assert_eq!(units[0].item_name(), "E");
    assert_eq!(units[0].get_code_block(), "enum E {}");
    assert_eq!(units[1].rule(), "s");
    assert_eq!(units[1].code_type(), "function");
    assert_eq!(units[1].get_code_block(), "fn f() {}");
    assert_eq!(unsupported(&rules, &decls), vec![2]);
}

#[test]
fn correlate_parsed_passes_the_error_on() {
    let failed = correlate_parsed("x", Err(SyntaxError::TooDeep));
    assert!(matches!(failed, Err(CorrelationError::Syntax { error: SyntaxError::TooDeep })));
    let misfit = correlate_parsed(
        "abc",
        Ok(vec![plain("a", 1, 0, 3, Shape::Struct), plain("b", 1, 2, 7, Shape::Struct)]),
    );
    assert!(matches!(misfit, Err(CorrelationError::SpanOutsideText { index: 1 })));
    let paired = correlate_parsed(
        "// #AIRULE: r\nfn f() {}",
        Ok(vec![plain("f", 2, 14, 23, Shape::Function { is_async: false })]),
    );
    match paired {
        Ok(units) => {
            assert_eq!(units.len(), 1);
            assert_eq!(units[0].rule(), "r");
            assert_eq!(units[0].get_code_block(), "fn f() {}");
        }
        Err(_) => panic!("the spans fit"),
    }
    assert_eq!(SyntaxError::TooDeep.message(), "modules nest too deep");
}

#[test]
fn rule_with_code_cuts_its_range() {
    let unit = RuleWithCode::new(
        "r".to_string(),
        Arc::new("abcdef".to_string()),
        "struct".to_string(),
        "X".to_string(),
        2..4,
    );
    assert_eq!(unit.get_code_block(), "cd");
    assert_eq!(unit.rule(), "r");
    assert_eq!(unit.code_type(), "struct");
    assert_eq!(unit.item_name(), "X");
    let empty = RuleWithCode::new(
        "r".to_string(),
        Arc::new("abc".to_string()),
        "struct".to_string(),
        "X".to_string(),
        3..3,
    );
    assert_eq!(empty.get_code_block(), "");
}

#[test]
fn rule_map_is_keyed_by_the_next_line() {
    let rules = extract_rule_map("// #AIRULE: a\nx\n  //  #AIRULE:   b  \ny\n");
    assert_eq!(rules.len(), 2);
    assert_eq!(rules[&2].description, "a");
    assert_eq!(rules[&2].source_line, 1);
    assert_eq!(rules[&4].description, "b");
    assert_eq!(rules[&4].source_line, 3);
}

#[test]
fn rule_map_of_text_without_markers_is_empty() {
    assert!(extract_rule_map("").is_empty());
    assert!(extract_rule_map("struct A;\n// AIRULE: no hash\n//#AIRULE: no blank\n").is_empty());
    assert!(extract_rule_map("// #AIRULE:no blank behind the colon\n").is_empty());
    assert!(extract_rule_map("// #AIRULE:\n").is_empty());
}

#[test]
fn marker_counts_only_at_the_start_of_a_line() {
    assert!(extract_rule_map("let x = 1; // #AIRULE: trailing\n").is_empty());
    assert!(extract_rule_map("/// #AIRULE: in a doc comment\n").is_empty());
    let rules = extract_rule_map("\t // #AIRULE: indented\n");
    assert_eq!(rules.len(), 1);
    assert_eq!(rules[&2].description, "indented");
}

#[test]
fn marker_on_the_last_line_without_line_feed_counts() {
    let rules = extract_rule_map("a\nb\n// #AIRULE: last");
    assert_eq!(rules.len(), 1);
    assert_eq!(rules[&4].description, "last");
    assert_eq!(rules[&4].source_line, 3);
}

#[test]
fn rule_text_loses_the_white_space_at_its_ends() {
    let rules = extract_rule_map("// #AIRULE:    spaced out \t \r\nstruct A;\r\n");
    assert_eq!(rules[&2].description, "spaced out");
}

#[test]
fn rule_from_match_wants_white_space_in_front() {
    assert_eq!(
        rule_from_match(Some(("  ".to_string(), " text ".to_string()))),
        Some("text".to_string())
    );
    assert_eq!(rule_from_match(Some(("".to_string(), "text".to_string()))), Some("text".to_string()));
    assert_eq!(rule_from_match(Some(("x ".to_string(), "text".to_string()))), None);
    assert_eq!(rule_from_match(Some(("".to_string(), "  ".to_string()))), Some("".to_string()));
    assert_eq!(rule_from_match(None), None);
}

#[test]
fn generic_project_rules_hold_one_rule() {
    let rules = load_project_rules();
    assert_eq!(rules.len(), 1);
    assert_eq!(rules[0].description, "For Rust Code, don't enforce safety checks");
    assert_eq!(rules[0].source_line, 0);
}
