use melange::parser::structure::{
    build_tree, child_path, fallback_crate_name, get_crate_name, last_component, missing_files,
    parse_crate, pick_crate_name, print_module_tree, process_item, process_items, Diagnostic,
    FileContent, ModuleNode, NodeKind, SourceFile,
};
use melange::parser::syntax::{Access, Declaration, Method, Shape, Span, SyntaxError};

fn file(path: &str, text: &str) -> SourceFile {
    SourceFile::from_text(path.to_string(), text)
}

fn tree_of(files: &[(&str, &str)]) -> (ModuleNode, Vec<Diagnostic>) {
    let files: Vec<SourceFile> = files.iter().map(|(path, text)| file(path, text)).collect();
    parse_crate("demo", None, &files)
}

fn decl(name: &str, visibility: Access, shape: Shape) -> Declaration {
    Declaration {
        name: name.to_string(),
        visibility,
        span: Span { start_line: 1, start: 0, end: 0 },
        shape,
    }
}

fn method(name: &str, is_async: bool) -> Method {
    Method { name: name.to_string(), visibility: Access::Private, is_async }
}

fn names(nodes: &[ModuleNode]) -> Vec<String> {
    nodes.iter().map(|node| node.name.clone()).collect()
}

#[test]
fn module_in_a_sibling_file() {
    let (root, notes) =
        tree_of(&[("demo/src/lib.rs", "mod foo;"), ("demo/src/foo.rs", "pub struct Bar;")]);
    assert!(notes.is_empty());
    assert_eq!(root.kind, NodeKind::Crate);
    assert_eq!(root.name, "demo");
    assert_eq!(root.path, "demo");
    assert!(matches!(root.visibility, Access::Public));
    assert_eq!(root.children.len(), 1);
    let foo = &root.children[0];
    assert_eq!(foo.name, "foo");
    assert_eq!(foo.kind, NodeKind::Module);
    assert!(matches!(foo.visibility, Access::Private));
    assert_eq!(foo.path, "demo/src/lib.rs");
    assert_eq!(foo.children.len(), 1);
    let bar = &foo.children[0];
    assert_eq!(bar.name, "Bar");
    assert_eq!(bar.kind, NodeKind::Struct);
    assert!(matches!(bar.visibility, Access::Public));
    assert_eq!(bar.path, "demo/src/foo.rs");
    assert!(bar.children.is_empty());
}

#[test]
fn impl_block_gives_its_type_a_method() {
    let (root, notes) = tree_of(&[(
        "demo/src/lib.rs",
        "struct Bar;\nfn other() {}\nenum E { A }\nimpl Bar { fn baz(&self) {} }\n",
    )]);
    assert!(notes.is_empty());
    assert_eq!(names(&root.children), vec!["Bar", "other", "E"]);
    let bar = &root.children[0];
    assert_eq!(bar.children.len(), 1);
    assert_eq!(bar.children[0].name, "baz");
    assert_eq!(bar.children[0].kind, NodeKind::Method);
    assert!(!bar.children[0].is_async);
    assert!(root.children[1].children.is_empty());
    assert!(root.children[2].children.is_empty());
}

#[test]
fn impl_block_without_its_type_attaches_nothing() {
    let (root, notes) = tree_of(&[("demo/src/lib.rs", "impl Nowhere { fn f(&self) {} }\n")]);
    assert!(root.children.is_empty());
    assert!(notes.is_empty());
}

#[test]
fn impl_block_in_front_of_its_type_attaches_nothing() {
    let (root, _) = tree_of(&[("demo/src/lib.rs", "impl Late { fn f(&self) {} }\nstruct Late;\n")]);
    assert_eq!(names(&root.children), vec!["Late"]);
    assert!(root.children[0].children.is_empty());
}

#[test]
fn impl_blocks_add_methods_in_order() {
    let (root, _) = tree_of(&[(
        "demo/src/lib.rs",
        "enum E { A }\nimpl E { pub fn a() {} const C: u8 = 0; pub(crate) async fn b(&self) {} }\nimpl std::fmt::Debug for E { fn fmt(&self, f: &mut std::fmt::Formatter) -> std::fmt::Result { Ok(()) } }\n",
    )]);
    let e = &root.children[0];
    assert_eq!(names(&e.children), vec!["a", "b", "fmt"]);
    assert!(matches!(e.children[0].visibility, Access::Public));
    assert!(e.children[1].is_async);
    assert!(
        matches!(&e.children[1].visibility, Access::Restricted { scope: Some(s) } if s == "crate")
    );
    assert!(matches!(e.children[2].visibility, Access::Private));
}

#[test]
fn impl_block_finds_the_first_type_of_its_name() {
    let (root, _) =
        tree_of(&[("demo/src/lib.rs", "fn T() {}\nstruct T;\nenum T {}\nimpl T { fn m() {} }\n")]);
    assert_eq!(root.children.len(), 3);
    assert!(root.children[0].children.is_empty());
    assert_eq!(names(&root.children[1].children), vec!["m"]);
    assert!(root.children[2].children.is_empty());
}

#[test]
fn impl_block_looks_in_its_own_scope_only() {
    let (root, _) = tree_of(&[(
        "demo/src/lib.rs",
        "struct Outer;\nmod m { struct Inner; impl Outer { fn a() {} } impl Inner { fn b() {} } }\nimpl Inner { fn c() {} }\n",
    )]);
    assert_eq!(names(&root.children), vec!["Outer", "m"]);
    assert!(root.children[0].children.is_empty());
    let inner = &root.children[1].children[0];
    assert_eq!(names(&inner.children), vec!["b"]);
}

#[test]
fn module_in_a_directory() {
    let (root, notes) = tree_of(&[
        ("demo/src/lib.rs", "pub mod foo;"),
        ("demo/src/foo/mod.rs", "mod bar;\nfn here() {}"),
        ("demo/src/foo/bar.rs", "pub(super) enum Deep {}"),
    ]);
    assert!(notes.is_empty());
    let foo = &root.children[0];
    assert!(matches!(foo.visibility, Access::Public));
    assert_eq!(names(&foo.children), vec!["bar", "here"]);
    assert_eq!(foo.children[1].path, "demo/src/foo/mod.rs");
    let deep = &foo.children[0].children[0];
    assert_eq!(deep.name, "Deep");
    assert_eq!(deep.kind, NodeKind::Enum);
    assert_eq!(deep.path, "demo/src/foo/bar.rs");
}

#[test]
fn sibling_file_comes_before_directory() {
    let (root, _) = tree_of(&[
        ("demo/src/lib.rs", "mod foo;"),
        ("demo/src/foo/mod.rs", "struct FromDirectory;"),
        ("demo/src/foo.rs", "struct FromFile;"),
    ]);
    assert_eq!(names(&root.children[0].children), vec!["FromFile"]);
}

#[test]
fn module_without_a_file_has_no_children() {
    let (root, notes) = tree_of(&[("demo/src/lib.rs", "struct Before;\nmod generated;\nstruct After;")]);
    assert_eq!(notes, vec![Diagnostic::UnresolvedModule { file: 0, line: 2 }]);
    assert_eq!(names(&root.children), vec!["Before", "generated", "After"]);
    assert!(root.children[1].children.is_empty());
    assert_eq!(root.children[1].kind, NodeKind::Module);
}

#[test]
fn module_inside_braces_reads_no_file() {
    let (root, notes) = tree_of(&[
        ("demo/src/lib.rs", "mod outer { mod inner; struct S; mod braces { fn f() {} } }"),
        ("demo/src/inner.rs", "struct Unseen;"),
    ]);
    assert_eq!(notes, vec![Diagnostic::UnresolvedModule { file: 0, line: 1 }]);
    let outer = &root.children[0];
    assert_eq!(names(&outer.children), vec!["inner", "S", "braces"]);
    assert!(outer.children[0].children.is_empty());
    assert_eq!(names(&outer.children[2].children), vec!["f"]);
    assert_eq!(outer.children[2].children[0].path, "demo/src/lib.rs");
}

#[test]
fn both_entries_fill_one_root() {
    let (root, notes) = tree_of(&[
        ("demo/src/main.rs", "fn main() {}\nimpl Shared { pub async fn run(&self) {} }"),
        ("demo/src/lib.rs", "pub struct Shared;"),
    ]);
    assert!(notes.is_empty());
    assert_eq!(names(&root.children), vec!["Shared", "main"]);
    assert_eq!(names(&root.children[0].children), vec!["run"]);
    assert!(root.children[0].children[0].is_async);
    assert_eq!(root.children[0].children[0].path, "demo/src/main.rs");
}

#[test]
fn missing_entries_are_reported() {
    let (root, notes) = tree_of(&[("demo/src/other.rs", "struct A;")]);
    assert!(root.children.is_empty());
    assert_eq!(notes, vec![Diagnostic::MissingEntry]);
    let (root, notes) = tree_of(&[]);
    assert!(root.children.is_empty());
    assert_eq!(notes, vec![Diagnostic::MissingEntry]);
}

#[test]
fn unparsable_file_gives_nothing_and_is_reported() {
    let (root, notes) = tree_of(&[
        ("demo/src/lib.rs", "mod bad;\nmod good;"),
        ("demo/src/bad.rs", "struct {"),
        ("demo/src/good.rs", "struct Fine;"),
    ]);
    assert_eq!(names(&root.children), vec!["bad", "good"]);
    assert!(root.children[0].children.is_empty());
    assert_eq!(names(&root.children[1].children), vec!["Fine"]);
    assert_eq!(notes, vec![Diagnostic::Unparsable { file: 1 }]);
}

#[test]
fn unreadable_file_gives_nothing_and_is_reported() {
    let files = vec![
        file("demo/src/lib.rs", "mod locked;"),
        SourceFile::unreadable("demo/src/locked.rs".to_string(), "permission denied".to_string()),
    ];
    let (root, notes) = parse_crate("demo", None, &files);
    assert_eq!(names(&root.children), vec!["locked"]);
    assert!(root.children[0].children.is_empty());
    assert_eq!(notes, vec![Diagnostic::Unreadable { file: 1 }]);
    assert!(
        matches!(&files[1].content, FileContent::Unreadable { reason } if reason == "permission denied")
    );
}

#[test]
fn file_that_names_itself_is_read_once() {
    let (root, notes) = tree_of(&[
        ("demo/src/lib.rs", "mod a;"),
        ("demo/src/a.rs", "mod b;\nstruct InA;"),
        ("demo/src/b.rs", "mod a;\nstruct InB;"),
    ]);
    let a = &root.children[0];
    assert_eq!(names(&a.children), vec!["b", "InA"]);
    let b = &a.children[0];
    assert_eq!(names(&b.children), vec!["a", "InB"]);
    assert!(b.children[0].children.is_empty());
    assert_eq!(notes, vec![Diagnostic::Reopened { file: 1 }]);
}

#[test]
fn file_named_twice_is_read_twice() {
    let (root, notes) = tree_of(&[
        ("demo/src/lib.rs", "mod a;\nmod b;"),
        ("demo/src/a.rs", "mod b;"),
        ("demo/src/b.rs", "struct B;"),
    ]);
    assert!(notes.is_empty());
    assert_eq!(names(&root.children[0].children[0].children), vec!["B"]);
    assert_eq!(names(&root.children[1].children), vec!["B"]);
}

#[test]
fn first_file_of_a_path_counts() {
    let (root, _) = tree_of(&[
        ("demo/src/lib.rs", "struct First;"),
        ("demo/src/lib.rs", "struct Second;"),
    ]);
    assert_eq!(names(&root.children), vec!["First"]);
}

#[test]
fn tree_in_print() {
    let (root, _) = tree_of(&[
        (
            "demo/src/lib.rs",
            "pub mod shapes;\nstruct Hidden;\npub(crate) enum Kind { A }\nimpl Kind { pub async fn load() {} fn plain(&self) {} }\npub(in crate::shapes) fn helper() {}\nasync fn last() {}\n",
        ),
        ("demo/src/shapes.rs", "pub struct Circle;\nmod inner { pub(super) fn deep() {} }\npub(self) struct Own;"),
    ]);
    let expected = "crate demo
├── mod shapes: pub
│   ├── struct Circle: pub
│   ├── mod inner
│   │   └── fn deep: pub(super)
│   └── struct Own: pub(self)
├── struct Hidden
├── enum Kind: pub(crate)
│   ├── async fn load: pub
│   └── fn plain
├── fn helper: pub(crate)
└── async fn last
";
    assert_eq!(print_module_tree(&root), expected);
}

#[test]
fn tree_in_print_blank_under_last_ancestor() {
    let (root, _) = tree_of(&[("demo/src/lib.rs", "mod a { mod b { fn c() {} fn d() {} } }")]);
    let expected = "crate demo
└── mod a
    └── mod b
        ├── fn c
        └── fn d
";
    assert_eq!(print_module_tree(&root), expected);
}

#[test]
fn clone_of_a_tree_is_the_same_tree() {
    let (root, _) = tree_of(&[
        ("demo/src/lib.rs", "pub mod a;\npub struct S;\nimpl S { pub(crate) async fn f(&self) {} }"),
        ("demo/src/a.rs", "mod inner { pub enum E {} }"),
    ]);
    let copy = root.clone();
    assert_eq!(print_module_tree(&copy), print_module_tree(&root));
    assert_eq!(format!("{:?}", copy), format!("{:?}", root));
    assert_eq!(copy.children[1].children[0].path, "demo/src/lib.rs");
}

#[test]
fn tree_of_nothing_prints_the_root_alone() {
    let (root, _) = build_tree("solo".to_string(), "x", &Vec::new());
    assert_eq!(print_module_tree(&root), "crate solo\n");
}

fn stands_well(node: &ModuleNode) -> bool {
    node.children.iter().all(|child| {
        let allowed = match node.kind {
            NodeKind::Crate | NodeKind::Module => matches!(
                child.kind,
                NodeKind::Module | NodeKind::Struct | NodeKind::Enum | NodeKind::Function
            ),
            NodeKind::Struct | NodeKind::Enum => child.kind == NodeKind::Method,
            NodeKind::Function | NodeKind::Method => false,
        };
        allowed && stands_well(child)
    })
}

#[test]
fn methods_stand_under_types_only() {
    let (root, _) = tree_of(&[
        (
            "demo/src/lib.rs",
            "pub mod shapes;\nstruct S;\nimpl S { fn a() {} }\nmod m { enum E {} impl E { fn b() {} } fn f() {} }\nimpl Missing { fn c() {} }\n",
        ),
        ("demo/src/shapes.rs", "pub struct Circle;\nimpl Circle { pub fn area(&self) {} }\nimpl S { fn d() {} }"),
        ("demo/src/main.rs", "fn main() {}\nimpl S { fn e() {} }"),
    ]);
    assert_eq!(root.kind, NodeKind::Crate);
    assert!(stands_well(&root));
    assert_eq!(names(&root.children), vec!["shapes", "S", "m", "main"]);
    assert_eq!(names(&root.children[1].children), vec!["a", "e"]);
    assert_eq!(names(&root.children[0].children[0].children), vec!["area"]);
}

#[test]
fn parsed_file_holds_the_declarations_it_was_given() {
    let declared = SourceFile::from_parsed("a.rs".to_string(), Ok(vec![decl("S", Access::Public, Shape::Struct)]));
    assert!(matches!(&declared.content, FileContent::Parsed { declarations } if declarations.len() == 1));
    let failed = SourceFile::from_parsed("b.rs".to_string(), Err(SyntaxError::Unparsable { message: "expected `;`".to_string() }));
    assert_eq!(failed.path, "b.rs");
    assert!(matches!(&failed.content, FileContent::Unparsable { reason } if reason == "expected `;`"));
    let text = SourceFile::from_text("c.rs".to_string(), "fn ok() {}");
    assert!(matches!(&text.content, FileContent::Parsed { declarations } if declarations.len() == 1));
}

#[test]
fn visibility_labels() {
    assert_eq!(Access::Public.label(), "pub");
    assert_eq!(Access::Private.label(), "private");
    assert_eq!(Access::Restricted { scope: Some("crate".to_string()) }.label(), "pub(crate)");
    assert_eq!(Access::Restricted { scope: Some("a".to_string()) }.label(), "pub(a)");
    assert_eq!(Access::Restricted { scope: None }.label(), "restricted");
}

#[test]
fn process_items_on_declarations_written_by_hand() {
    let decls = vec![
        decl("S", Access::Public, Shape::Struct),
        decl("", Access::Private, Shape::Other),
        decl("", Access::Private, Shape::Impl { target: None, methods: vec![method("x", false)] }),
        decl(
            "",
            Access::Private,
            Shape::Impl {
                target: Some("S".to_string()),
                methods: vec![method("a", false), method("b", true)],
            },
        ),
        decl("m", Access::Private, Shape::Module { content: None }),
        decl(
            "n",
            Access::Private,
            Shape::Module { content: Some(vec![decl("f", Access::Public, Shape::Function { is_async: true })]) },
        ),
    ];
    let mut nodes: Vec<ModuleNode> = Vec::new();
    let mut notes: Vec<Diagnostic> = Vec::new();
    process_items(&mut nodes, &mut notes, &decls, &"file.rs".to_string(), 4);
    assert_eq!(notes, vec![Diagnostic::UnresolvedModule { file: 4, line: 1 }]);
    assert_eq!(names(&nodes), vec!["S", "m", "n"]);
    assert_eq!(names(&nodes[0].children), vec!["a", "b"]);
    assert!(nodes[0].children[1].is_async);
    assert_eq!(nodes[0].children[1].kind, NodeKind::Method);
    assert_eq!(nodes[0].children[1].path, "file.rs");
    assert!(nodes[1].children.is_empty());
    assert_eq!(nodes[2].children[0].kind, NodeKind::Function);
    assert!(nodes[2].children[0].is_async);
    let before = names(&nodes);
    process_item(
        &mut nodes,
        &mut notes,
        &decl("", Access::Private, Shape::Impl { target: Some("Absent".to_string()), methods: vec![method("x", false)] }),
        &"file.rs".to_string(),
        4,
    );
    assert_eq!(notes.len(), 1);
    assert_eq!(names(&nodes), before);
    assert_eq!(names(&nodes[0].children), vec!["a", "b"]);
}

#[test]
fn child_path_joins_with_a_slash() {
    assert_eq!(child_path("a/b", "c.rs"), "a/b/c.rs");
    assert_eq!(child_path(".", "src"), "./src");
    assert_eq!(child_path("", "src"), "/src");
}

#[test]
fn crate_name_comes_from_the_manifest() {
    let manifest = "[package]\nname = \"from-manifest\"\nversion = \"0.1.0\"\n";
    assert_eq!(get_crate_name(Some(manifest), "some/dir"), "from-manifest");
    let (root, _) = parse_crate("some/dir", Some(manifest), &Vec::new());
    assert_eq!(root.name, "from-manifest");
    assert_eq!(root.path, "some/dir");
}

#[test]
fn crate_name_falls_back_to_the_path() {
    assert_eq!(get_crate_name(None, "some/dir"), "dir");
    assert_eq!(get_crate_name(Some("[workspace]\nmembers = []\n"), "some/dir"), "dir");
    assert_eq!(get_crate_name(Some("[package]\nname = 7\n"), "some/dir"), "dir");
    assert_eq!(get_crate_name(Some("this is = not toml ["), "some/dir"), "dir");
    assert_eq!(fallback_crate_name("some/dir"), "dir");
}

#[test]
fn last_component_is_the_last_name_of_the_path() {
    assert_eq!(last_component("some/dir"), Some("dir".to_string()));
    assert_eq!(last_component("dir"), Some("dir".to_string()));
    assert_eq!(last_component("some/dir/"), Some("dir".to_string()));
    assert_eq!(last_component("some/dir///"), Some("dir".to_string()));
    assert_eq!(last_component("some//dir"), Some("dir".to_string()));
    assert_eq!(last_component("some/dir/."), Some("dir".to_string()));
    assert_eq!(last_component("some/dir/./"), Some("dir".to_string()));
    assert_eq!(last_component("./dir"), Some("dir".to_string()));
    assert_eq!(last_component("/dir"), Some("dir".to_string()));
    assert_eq!(last_component("a/.hidden"), Some(".hidden".to_string()));
    assert_eq!(last_component("a/..."), Some("...".to_string()));
    assert_eq!(last_component("caf\u{e9}/cr\u{e8}me"), Some("cr\u{e8}me".to_string()));
}

#[test]
fn path_without_a_name_has_no_last_component() {
    assert_eq!(last_component(""), None);
    assert_eq!(last_component("."), None);
    assert_eq!(last_component("./"), None);
    assert_eq!(last_component("./."), None);
    assert_eq!(last_component(".."), None);
    assert_eq!(last_component("some/dir/.."), None);
    assert_eq!(last_component("../"), None);
    assert_eq!(last_component("/"), None);
    assert_eq!(last_component("//"), None);
    assert_eq!(last_component("/."), None);
}

#[test]
fn project_is_named_by_its_path_where_the_manifest_names_none() {
    let (root, _) = parse_crate("work/tool/", None, &Vec::new());
    assert_eq!(root.name, "tool");
    let (root, _) = parse_crate(".", Some("[lib]\n"), &Vec::new());
    assert_eq!(root.name, "unknown_crate");
    assert_eq!(fallback_crate_name("work/tool/."), "tool");
    assert_eq!(fallback_crate_name("/"), "unknown_crate");
}

#[test]
fn files_are_asked_for_as_modules_name_them() {
    let none: Vec<SourceFile> = Vec::new();
    assert_eq!(missing_files("p", &none), vec!["p/src/lib.rs", "p/src/main.rs"]);
    let entry = vec![file("p/src/lib.rs", "mod a;\nmod inline { mod never; }\nstruct S;\nmod b;")];
    assert_eq!(
        missing_files("p", &entry),
        vec!["p/src/a.rs", "p/src/a/mod.rs", "p/src/b.rs", "p/src/b/mod.rs", "p/src/main.rs"]
    );
    let deeper = vec![
        file("p/src/lib.rs", "mod a;\nmod b;"),
        file("p/src/a/mod.rs", "mod c;"),
        file("p/src/b.rs", "mod d;\nmod b;"),
        SourceFile::unreadable("p/src/main.rs".to_string(), "denied".to_string()),
    ];
    assert_eq!(
        missing_files("p", &deeper),
        vec!["p/src/a/c.rs", "p/src/a/c/mod.rs", "p/src/d.rs", "p/src/d/mod.rs"]
    );
    let whole = vec![file("p/src/main.rs", "fn main() {}"), file("p/src/lib.rs", "struct S;")];
    assert!(missing_files("p", &whole).is_empty());
    let broken = vec![file("p/src/lib.rs", "mod ("), file("p/src/main.rs", "mod a;"), file("p/src/a.rs", "mod a;")];
    assert!(missing_files("p", &broken).is_empty());
}

#[test]
fn crate_without_a_name_is_unknown() {
    assert_eq!(fallback_crate_name(".."), "unknown_crate");
    assert_eq!(get_crate_name(None, ""), "unknown_crate");
    assert_eq!(pick_crate_name(None, None), "unknown_crate");
}

#[test]
fn pick_crate_name_takes_the_first_that_is_there() {
    assert_eq!(pick_crate_name(Some("a".to_string()), Some("b".to_string())), "a");
    assert_eq!(pick_crate_name(None, Some("b".to_string())), "b");
    assert_eq!(pick_crate_name(Some("a".to_string()), None), "a");
}
