//! The tree of a project's declarations: modules, types, functions, and the
//! methods that implementation blocks give to types.

use crate::parser::syntax::{
    all_nest_within, lowered_all, parse_declarations, parsed, shift_for, Access, AccessView,
    Declaration, Method, Shape, SyntaxError,
};
use crate::text::{chars_of, text_from, text_of, texts};
use vstd::prelude::*;
use vstd::string::StringExecFns;

verus! {

/// What a node of the tree stands for.
#[derive(Clone, Copy, Debug, PartialEq, Eq, Structural)]
pub enum NodeKind {
    /// The root: the project itself.
    Crate,
    Module,
    Struct,
    Enum,
    Function,
    /// A function of an implementation block, under the type it is for.
    Method,
}

/// A declaration with the declarations under it, in source order.
#[derive(Debug)]
pub struct ModuleNode {
    pub name: String,
    pub kind: NodeKind,
    pub visibility: Access,
    /// Meaningful for functions and methods; `false` for the rest.
    pub is_async: bool,
    pub children: Vec<ModuleNode>,
    /// The file that holds the declaration; for the root, the project's path.
    pub path: String,
}

/// The mathematical value of a [`ModuleNode`].
pub struct NodeView {
    pub name: Seq<char>,
    pub kind: NodeKind,
    pub visibility: AccessView,
    pub is_async: bool,
    pub children: Seq<NodeView>,
    pub path: Seq<char>,
}

/// The value of `node`: its own fields and the values of its children.
pub open spec fn node_view(node: ModuleNode) -> NodeView
    decreases node,
{
    NodeView {
        name: node.name@,
        kind: node.kind,
        visibility: node.visibility@,
        is_async: node.is_async,
        children: Seq::new(
            node.children.len() as nat,
            |i: int|
                if 0 <= i < node.children.len() {
                    node_view(node.children[i])
                } else {
                    arbitrary()
                },
        ),
        path: node.path@,
    }
}

impl View for ModuleNode {
    type V = NodeView;

    open spec fn view(&self) -> NodeView {
        node_view(*self)
    }
}

/// The values of a row of nodes.
pub open spec fn views(nodes: Seq<ModuleNode>) -> Seq<NodeView> {
    Seq::new(nodes.len(), |i: int| nodes[i]@)
}

/// The node of a declaration that has nothing under it yet.
pub open spec fn leaf(decl: Declaration, kind: NodeKind, is_async: bool, path: Seq<char>)
    -> NodeView {
    NodeView {
        name: decl.name@,
        kind,
        visibility: decl.visibility@,
        is_async,
        children: Seq::empty(),
        path,
    }
}

/// The node of a function of an implementation block.
pub open spec fn method_node(method: Method, path: Seq<char>) -> NodeView {
    NodeView {
        name: method.name@,
        kind: NodeKind::Method,
        visibility: method.visibility@,
        is_async: method.is_async,
        children: Seq::empty(),
        path,
    }
}

/// The nodes of the functions of an implementation block, in order.
pub open spec fn method_nodes(methods: Seq<Method>, path: Seq<char>) -> Seq<NodeView> {
    Seq::new(methods.len(), |i: int| method_node(methods[i], path))
}

/// Whether `node` is the struct or enum called `target`.
pub open spec fn is_type_named(node: NodeView, target: Seq<char>) -> bool {
    (node.kind == NodeKind::Struct || node.kind == NodeKind::Enum) && node.name == target
}

/// Whether `index` is where the first struct or enum called `target` stands
/// in `nodes`.
pub open spec fn is_first_type_named(nodes: Seq<NodeView>, target: Seq<char>, index: int) -> bool {
    &&& 0 <= index < nodes.len()
    &&& is_type_named(nodes[index], target)
    &&& forall|k: int| 0 <= k < index ==> !is_type_named(#[trigger] nodes[k], target)
}

/// Where the first struct or enum called `target` stands in `nodes`, if
/// there is one.
pub open spec fn type_index(nodes: Seq<NodeView>, target: Seq<char>) -> Option<int> {
    if exists|j: int| is_first_type_named(nodes, target, j) {
        Some(choose|j: int| is_first_type_named(nodes, target, j))
    } else {
        None
    }
}

/// `nodes` with `extra` put behind the children of the node at `index`.
pub open spec fn attach(nodes: Seq<NodeView>, index: int, extra: Seq<NodeView>) -> Seq<NodeView> {
    nodes.update(index, NodeView { children: nodes[index].children + extra, ..nodes[index] })
}

/// The row `nodes` after the declaration `decl` of the file `path` has been
/// taken in.
///
/// A struct, enum or function adds a node. A module adds a node with what
/// its braces hold under it; `mod name;` adds one with nothing under it. An
/// implementation block adds its functions as methods under the first
/// struct or enum of the row that has the block's target name, and changes
/// nothing where the row has none. Any other declaration changes nothing.
pub open spec fn item_step(nodes: Seq<NodeView>, decl: Declaration, path: Seq<char>) -> Seq<
    NodeView,
>
    decreases decl,
{
    match decl.shape {
        Shape::Struct => nodes.push(leaf(decl, NodeKind::Struct, false, path)),
        Shape::Enum => nodes.push(leaf(decl, NodeKind::Enum, false, path)),
        Shape::Function { is_async } => nodes.push(leaf(decl, NodeKind::Function, is_async, path)),
        Shape::Module { content } => nodes.push(
            NodeView {
                children: match content {
                    Some(inner) => items_fold(Seq::empty(), inner@, path),
                    None => Seq::empty(),
                },
                ..leaf(decl, NodeKind::Module, false, path)
            },
        ),
        Shape::Impl { target: Some(target), methods } => match type_index(nodes, target@) {
            Some(index) => attach(nodes, index, method_nodes(methods@, path)),
            None => nodes,
        },
        Shape::Impl { target: None, methods } => nodes,
        Shape::Other => nodes,
    }
}

/// The row `nodes` after the declarations `decls` have been taken in, one
/// after the other.
pub open spec fn items_fold(nodes: Seq<NodeView>, decls: Seq<Declaration>, path: Seq<char>) -> Seq<
    NodeView,
>
    decreases decls,
{
    if decls.len() == 0 {
        nodes
    } else {
        item_step(items_fold(nodes, decls.drop_last(), path), decls.last(), path)
    }
}

/// Something the builder met that left part of the tree empty. `file` is
/// an index into the files that were handed in, `line` a line of that file,
/// counted from 1.
#[derive(Clone, Copy, Debug, PartialEq, Eq, Structural)]
pub enum Diagnostic {
    /// The project has neither entry file.
    MissingEntry,
    /// The file could not be read.
    Unreadable { file: usize },
    /// The file is no well-formed source file.
    Unparsable { file: usize },
    /// A module names this file while it is being read.
    Reopened { file: usize },
    /// The module that is declared without braces on this line has no file,
    /// or stands inside the braces of another module, where no file is
    /// looked for.
    UnresolvedModule { file: usize, line: usize },
}

/// What is reported while the declaration `decl` of the file at `file` is
/// taken in as [`item_step`] has it: each `mod name;` in it.
pub open spec fn item_notes(decl: Declaration, file: usize) -> Seq<Diagnostic>
    decreases decl,
{
    match decl.shape {
        Shape::Module { content: None } => seq![
            Diagnostic::UnresolvedModule { file, line: decl.span.start_line },
        ],
        Shape::Module { content: Some(inner) } => items_notes(inner@, file),
        _ => Seq::empty(),
    }
}

/// What is reported while the declarations `decls` of the file at `file`
/// are taken in as [`items_fold`] has it, in the order in which it is met.
pub open spec fn items_notes(decls: Seq<Declaration>, file: usize) -> Seq<Diagnostic>
    decreases decls,
{
    if decls.len() == 0 {
        Seq::empty()
    } else {
        items_notes(decls.drop_last(), file) + item_notes(decls.last(), file)
    }
}

/// A node's children, seen through its value, are the values of its children.
pub proof fn lemma_children_views(node: ModuleNode)
    ensures
        node@.children == views(node.children@),
{
}

impl Clone for ModuleNode {
    fn clone(&self) -> (r: Self)
        ensures
            r@ == self@,
        decreases self,
    {
        let mut children: Vec<ModuleNode> = Vec::new();
        let mut i: usize = 0;
        while i < self.children.len()
            invariant
                i <= self.children.len(),
                children.len() == i,
                forall|k: int| 0 <= k < i ==> (#[trigger] children[k])@ == self.children[k]@,
            decreases self.children.len() - i,
        {
            children.push(self.children[i].clone());
            i = i + 1;
        }
        let copy = ModuleNode {
            name: self.name.clone(),
            kind: self.kind,
            visibility: self.visibility.clone(),
            is_async: self.is_async,
            children,
            path: self.path.clone(),
        };
        proof {
            lemma_children_views(copy);
            lemma_children_views(*self);
            assert(views(copy.children@) =~= views(self.children@));
        }
        copy
    }
}

/// Where the first struct or enum called `target` stands in `nodes`.
fn find_type(nodes: &Vec<ModuleNode>, target: &String) -> (r: Option<usize>)
    ensures
        match r {
            Some(j) => type_index(views(nodes@), target@) == Some(j as int),
            None => type_index(views(nodes@), target@) is None,
        },
{
    let mut i: usize = 0;
    while i < nodes.len()
        invariant
            i <= nodes.len(),
            forall|k: int| 0 <= k < i ==> !is_type_named(#[trigger] views(nodes@)[k], target@),
        decreases nodes.len() - i,
    {
        let node = &nodes[i];
        if (node.kind == NodeKind::Struct || node.kind == NodeKind::Enum) && node.name == *target {
            assert(is_first_type_named(views(nodes@), target@, i as int));
            return Some(i);
        }
        i = i + 1;
    }
    None
}

/// The nodes of the functions of an implementation block of the file `path`.
fn make_methods(methods: &Vec<Method>, path: &String) -> (r: Vec<ModuleNode>)
    ensures
        views(r@) == method_nodes(methods@, path@),
{
    let mut nodes: Vec<ModuleNode> = Vec::new();
    let mut i: usize = 0;
    while i < methods.len()
        invariant
            i <= methods.len(),
            nodes.len() == i,
            forall|k: int| 0 <= k < i ==> (#[trigger] nodes[k])@ == method_node(methods[k], path@),
        decreases methods.len() - i,
    {
        let method = &methods[i];
        let node = ModuleNode {
            name: method.name.clone(),
            kind: NodeKind::Method,
            visibility: method.visibility.clone(),
            is_async: method.is_async,
            children: Vec::new(),
            path: path.clone(),
        };
        assert(node@.children =~= Seq::empty());
        nodes.push(node);
        i = i + 1;
    }
    nodes
}

/// A node with nothing under it for the declaration `decl` of the file `path`.
fn make_leaf(decl: &Declaration, kind: NodeKind, is_async: bool, path: &String) -> (r: ModuleNode)
    ensures
        r@ == leaf(*decl, kind, is_async, path@),
{
    let node = ModuleNode {
        name: decl.name.clone(),
        kind,
        visibility: decl.visibility.clone(),
        is_async,
        children: Vec::new(),
        path: path.clone(),
    };
    assert(node@.children =~= Seq::empty());
    node
}

/// Puts `node` at the end of `nodes`.
fn push_node(nodes: &mut Vec<ModuleNode>, node: ModuleNode)
    ensures
        views(final(nodes)@) == views(old(nodes)@).push(node@),
{
    nodes.push(node);
}

/// Takes the declaration `item` into the row `nodes` and says in `notes`
/// what it met. The declaration stands in the file that is known by `path`
/// and is number `file` of the files.
pub fn process_item(
    nodes: &mut Vec<ModuleNode>,
    notes: &mut Vec<Diagnostic>,
    item: &Declaration,
    path: &String,
    file: usize,
)
    ensures
        views(final(nodes)@) == item_step(views(old(nodes)@), *item, path@),
        final(notes)@ == old(notes)@ + item_notes(*item, file),
    decreases item,
{
    match &item.shape {
        Shape::Struct => {
            let node = make_leaf(item, NodeKind::Struct, false, path);
            push_node(nodes, node);
        },
        Shape::Enum => {
            let node = make_leaf(item, NodeKind::Enum, false, path);
            push_node(nodes, node);
        },
        Shape::Function { is_async } => {
            let node = make_leaf(item, NodeKind::Function, *is_async, path);
            push_node(nodes, node);
        },
        Shape::Module { content } => {
            let mut node = make_leaf(item, NodeKind::Module, false, path);
            match content {
                Some(inner) => {
                    let mut children: Vec<ModuleNode> = Vec::new();
                    assert(views(children@) =~= Seq::empty());
                    process_items(&mut children, notes, inner, path, file);
                    node.children = children;
                    proof {
                        lemma_children_views(node);
                    }
                },
                None => {
                    notes.push(
                        Diagnostic::UnresolvedModule { file, line: item.span.start_line },
                    );
                },
            }
            push_node(nodes, node);
        },
        Shape::Impl { target: Some(target), methods } => {
            match find_type(nodes, target) {
                Some(index) => {
                    let mut extra = make_methods(methods, path);
                    let ghost before = nodes[index as int];
                    let node = &mut nodes[index];
                    node.children.append(&mut extra);
                    proof {
                        lemma_children_views(before);
                        lemma_children_views(nodes[index as int]);
                        assert(views(nodes[index as int].children@) =~= views(before.children@)
                            + method_nodes(methods@, path@));
                    }
                },
                None => {},
            }
        },
        Shape::Impl { target: None, methods } => {},
        Shape::Other => {},
    }
}

/// Takes the declarations `items` into the row `nodes`, one after the
/// other, and says in `notes` what it met. The declarations stand in the
/// file that is known by `path` and is number `file` of the files.
pub fn process_items(
    nodes: &mut Vec<ModuleNode>,
    notes: &mut Vec<Diagnostic>,
    items: &Vec<Declaration>,
    path: &String,
    file: usize,
)
    ensures
        views(final(nodes)@) == items_fold(views(old(nodes)@), items@, path@),
        final(notes)@ == old(notes)@ + items_notes(items@, file),
    decreases items,
{
    let mut i: usize = 0;
    while i < items.len()
        invariant
            i <= items.len(),
            views(nodes@) == items_fold(views(old(nodes)@), items@.take(i as int), path@),
            notes@ == old(notes)@ + items_notes(items@.take(i as int), file),
        decreases items.len() - i,
    {
        assert(items@.take(i + 1).drop_last() =~= items@.take(i as int));
        process_item(nodes, notes, &items[i], path, file);
        i = i + 1;
    }
    assert(items@.take(i as int) =~= items@);
}

/// What became of reading and parsing one file.
#[derive(Debug)]
pub enum FileContent {
    /// The file is there and could not be read; why.
    Unreadable { reason: String },
    /// The file is no well-formed source file; the parser's message.
    Unparsable { reason: String },
    /// The top-level declarations of the file, in order.
    Parsed { declarations: Vec<Declaration> },
}

/// One file of the project: the path it is known by and what it holds.
///
/// Paths are texts that [`child_path`] builds from the project's path, with
/// `/` between the segments whatever the platform.
#[derive(Debug)]
pub struct SourceFile {
    pub path: String,
    pub content: FileContent,
}

impl SourceFile {
    /// The file `path`, given what the parser made of its text: parsed with
    /// the declarations, or unparsable with the error in words.
    pub fn from_parsed(path: String, parsed: Result<Vec<Declaration>, SyntaxError>) -> (file:
        SourceFile)
        ensures
            file.path == path,
            match parsed {
                Ok(declarations) => file.content == (FileContent::Parsed { declarations }),
                Err(error) => file.content matches FileContent::Unparsable { reason } && reason@
                    == error.message_of(),
            },
    {
        match parsed {
            Ok(declarations) => SourceFile { path, content: FileContent::Parsed { declarations } },
            Err(error) => SourceFile {
                path,
                content: FileContent::Unparsable { reason: error.message() },
            },
        }
    }

    /// The file `path` with the text `text`: parsed, with the declarations
    /// of the items that the parser found, where the parser takes the text
    /// for a source file and its modules nest no deeper than it has bytes;
    /// else unparsable with the reason.
    pub fn from_text(path: String, text: &str) -> (file: SourceFile)
        ensures
            file.path == path,
            match parsed(text@) {
                None => file.content is Unparsable,
                Some((items, shebang)) => if all_nest_within(items, text.len() as nat) {
                    file.content matches FileContent::Parsed { declarations } && lowered_all(
                        items,
                        shift_for(text@, shebang),
                        declarations@,
                    )
                } else {
                    file.content matches FileContent::Unparsable { reason } && reason@
                        == SyntaxError::TooDeep.message_of()
                },
            },
    {
        SourceFile::from_parsed(path, parse_declarations(text))
    }

    /// The file `path` that is there and could not be read.
    pub fn unreadable(path: String, reason: String) -> (file: SourceFile)
        ensures
            file.path == path,
            file.content == (FileContent::Unreadable { reason }),
    {
        SourceFile { path, content: FileContent::Unreadable { reason } }
    }
}

/// The path of the entry `name` of the directory `dir`.
pub open spec fn child_path_of(dir: Seq<char>, name: Seq<char>) -> Seq<char> {
    dir + "/"@ + name
}

/// The file `name.rs` beside the file that declares `mod name;`.
pub open spec fn sibling_file(dir: Seq<char>, name: Seq<char>) -> Seq<char> {
    child_path_of(dir, name) + ".rs"@
}

/// The file `name/mod.rs` beside the file that declares `mod name;`.
pub open spec fn nested_file(dir: Seq<char>, name: Seq<char>) -> Seq<char> {
    child_path_of(child_path_of(dir, name), "mod.rs"@)
}

/// Whether `index` is where the first file known by `path` stands in `files`.
pub open spec fn is_first_file(files: Seq<SourceFile>, path: Seq<char>, index: int) -> bool {
    &&& 0 <= index < files.len()
    &&& files[index].path@ == path
    &&& forall|k: int| 0 <= k < index ==> (#[trigger] files[k]).path@ != path
}

/// Where the first file known by `path` stands in `files`, if there is one.
pub open spec fn file_index(files: Seq<SourceFile>, path: Seq<char>) -> Option<int> {
    if exists|j: int| is_first_file(files, path, j) {
        Some(choose|j: int| is_first_file(files, path, j))
    } else {
        None
    }
}

/// How many files are not being read: the entries of `open` that are false.
pub open spec fn closed_count(open: Seq<bool>) -> nat
    decreases open.len(),
{
    if open.len() == 0 {
        0
    } else {
        closed_count(open.drop_last()) + if open.last() {
            0nat
        } else {
            1nat
        }
    }
}

/// Opening a closed file leaves one closed file fewer.
pub proof fn lemma_open_one(open: Seq<bool>, index: int)
    requires
        0 <= index < open.len(),
        !open[index],
    ensures
        closed_count(open.update(index, true)) + 1 == closed_count(open),
    decreases open.len(),
{
    let after = open.update(index, true);
    if index == open.len() - 1 {
        assert(after.drop_last() =~= open.drop_last());
    } else {
        lemma_open_one(open.drop_last(), index);
        assert(after.drop_last() =~= open.drop_last().update(index, true));
    }
}

/// The row `nodes` after the file at `index`, which lies in the directory
/// `dir`, has been taken in, while the files marked in `open` are being read.
///
/// A file that is being read already is not read again, so a module that
/// names a file on the way to itself gets nothing under it. A file that was
/// not read or not parsed changes nothing.
pub open spec fn file_nodes(
    files: Seq<SourceFile>,
    open: Seq<bool>,
    nodes: Seq<NodeView>,
    index: int,
    dir: Seq<char>,
) -> Seq<NodeView>
    decreases closed_count(open), 0nat, 0nat,
    via file_nodes_decreases
{
    if 0 <= index < files.len() && index < open.len() && !open[index] {
        match files[index].content {
            FileContent::Parsed { declarations } => file_fold(
                files,
                open.update(index, true),
                nodes,
                declarations@,
                dir,
                files[index].path@,
            ),
            _ => nodes,
        }
    } else {
        nodes
    }
}

#[via_fn]
proof fn file_nodes_decreases(
    files: Seq<SourceFile>,
    open: Seq<bool>,
    nodes: Seq<NodeView>,
    index: int,
    dir: Seq<char>,
) {
    if 0 <= index < files.len() && index < open.len() && !open[index] {
        lemma_open_one(open, index);
    }
}

/// What stands under `mod name;` declared in a file of the directory `dir`:
/// the content of `name.rs` in that directory if `files` has it, else that
/// of `name/mod.rs`, else nothing.
pub open spec fn module_nodes(
    files: Seq<SourceFile>,
    open: Seq<bool>,
    dir: Seq<char>,
    name: Seq<char>,
) -> Seq<NodeView>
    decreases closed_count(open), 1nat, 0nat,
{
    match file_index(files, sibling_file(dir, name)) {
        Some(index) => file_nodes(files, open, Seq::empty(), index, dir),
        None => match file_index(files, nested_file(dir, name)) {
            Some(index) => file_nodes(files, open, Seq::empty(), index, child_path_of(dir, name)),
            None => Seq::empty(),
        },
    }
}

/// The row `nodes` after the top-level declaration `decl` of the file
/// `path` in the directory `dir` has been taken in: as [`item_step`] has
/// it, but that `mod name;` gets the content of the module's file under it.
pub open spec fn file_step(
    files: Seq<SourceFile>,
    open: Seq<bool>,
    nodes: Seq<NodeView>,
    decl: Declaration,
    dir: Seq<char>,
    path: Seq<char>,
) -> Seq<NodeView>
    decreases closed_count(open), 2nat, 0nat,
{
    match decl.shape {
        Shape::Module { content: None } => nodes.push(
            NodeView {
                children: module_nodes(files, open, dir, decl.name@),
                ..leaf(decl, NodeKind::Module, false, path)
            },
        ),
        _ => item_step(nodes, decl, path),
    }
}

/// The row `nodes` after the top-level declarations `decls` of the file
/// `path` have been taken in, one after the other.
pub open spec fn file_fold(
    files: Seq<SourceFile>,
    open: Seq<bool>,
    nodes: Seq<NodeView>,
    decls: Seq<Declaration>,
    dir: Seq<char>,
    path: Seq<char>,
) -> Seq<NodeView>
    decreases closed_count(open), 3nat, decls.len(),
{
    if decls.len() == 0 {
        nodes
    } else {
        file_step(
            files,
            open,
            file_fold(files, open, nodes, decls.drop_last(), dir, path),
            decls.last(),
            dir,
            path,
        )
    }
}

/// What is reported while the file at `index` is taken in: see
/// [`file_nodes`].
pub open spec fn file_notes(files: Seq<SourceFile>, open: Seq<bool>, index: int, dir: Seq<char>)
    -> Seq<Diagnostic>
    decreases closed_count(open), 0nat, 0nat,
    via file_notes_decreases
{
    if 0 <= index < files.len() && index < open.len() {
        if open[index] {
            seq![Diagnostic::Reopened { file: index as usize }]
        } else {
            match files[index].content {
                FileContent::Unreadable { reason } => seq![
                    Diagnostic::Unreadable { file: index as usize },
                ],
                FileContent::Unparsable { reason } => seq![
                    Diagnostic::Unparsable { file: index as usize },
                ],
                FileContent::Parsed { declarations } => fold_notes(
                    files,
                    open.update(index, true),
                    declarations@,
                    dir,
                    index as usize,
                ),
            }
        }
    } else {
        Seq::empty()
    }
}

#[via_fn]
proof fn file_notes_decreases(
    files: Seq<SourceFile>,
    open: Seq<bool>,
    index: int,
    dir: Seq<char>,
) {
    if 0 <= index < files.len() && index < open.len() && !open[index] {
        lemma_open_one(open, index);
    }
}

/// What is reported for `mod name;`, declared on the line `line` of the
/// file at `file`: what is reported while the module's file is taken in
/// (see [`module_nodes`]), or that it has none.
pub open spec fn module_notes(
    files: Seq<SourceFile>,
    open: Seq<bool>,
    dir: Seq<char>,
    name: Seq<char>,
    file: usize,
    line: usize,
) -> Seq<Diagnostic>
    decreases closed_count(open), 1nat, 0nat,
{
    match file_index(files, sibling_file(dir, name)) {
        Some(index) => file_notes(files, open, index, dir),
        None => match file_index(files, nested_file(dir, name)) {
            Some(index) => file_notes(files, open, index, child_path_of(dir, name)),
            None => seq![Diagnostic::UnresolvedModule { file, line }],
        },
    }
}

/// What is reported while the top-level declaration `decl` of the file at
/// `file` is taken in.
pub open spec fn step_notes(
    files: Seq<SourceFile>,
    open: Seq<bool>,
    decl: Declaration,
    dir: Seq<char>,
    file: usize,
) -> Seq<Diagnostic>
    decreases closed_count(open), 2nat, 0nat,
{
    match decl.shape {
        Shape::Module { content: None } => module_notes(
            files,
            open,
            dir,
            decl.name@,
            file,
            decl.span.start_line,
        ),
        _ => item_notes(decl, file),
    }
}

/// What is reported while the top-level declarations `decls` of the file
/// at `file` are taken in, in the order in which it is met.
pub open spec fn fold_notes(
    files: Seq<SourceFile>,
    open: Seq<bool>,
    decls: Seq<Declaration>,
    dir: Seq<char>,
    file: usize,
) -> Seq<Diagnostic>
    decreases closed_count(open), 3nat, decls.len(),
{
    if decls.len() == 0 {
        Seq::empty()
    } else {
        fold_notes(files, open, decls.drop_last(), dir, file) + step_notes(
            files,
            open,
            decls.last(),
            dir,
            file,
        )
    }
}

/// The path of the entry `name` of the directory `dir`.
pub fn child_path(dir: &str, name: &str) -> (r: String)
    ensures
        r@ == child_path_of(dir@, name@),
{
    let mut path = dir.to_owned();
    path.append("/");
    path.append(name);
    path
}

/// Where the first file known by `path` stands in `files`.
fn find_file(files: &Vec<SourceFile>, path: &String) -> (r: Option<usize>)
    ensures
        match r {
            Some(j) => file_index(files@, path@) == Some(j as int),
            None => file_index(files@, path@) is None,
        },
{
    let mut i: usize = 0;
    while i < files.len()
        invariant
            i <= files.len(),
            forall|k: int| 0 <= k < i ==> (#[trigger] files[k]).path@ != path@,
        decreases files.len() - i,
    {
        if files[i].path == *path {
            assert(is_first_file(files@, path@, i as int));
            return Some(i);
        }
        i = i + 1;
    }
    None
}

/// Takes the file at `index`, which lies in the directory `dir`, into the
/// row `nodes`.
fn process_file(
    files: &Vec<SourceFile>,
    open: &mut Vec<bool>,
    nodes: &mut Vec<ModuleNode>,
    notes: &mut Vec<Diagnostic>,
    index: usize,
    dir: &String,
)
    requires
        index < files.len(),
        old(open).len() == files.len(),
    ensures
        final(open)@ == old(open)@,
        views(final(nodes)@) == file_nodes(
            files@,
            old(open)@,
            views(old(nodes)@),
            index as int,
            dir@,
        ),
        final(notes)@ == old(notes)@ + file_notes(files@, old(open)@, index as int, dir@),
    decreases closed_count(old(open)@), 0nat, 0nat,
{
    if open[index] {
        notes.push(Diagnostic::Reopened { file: index });
        return ;
    }
    match &files[index].content {
        FileContent::Parsed { declarations } => {
            proof {
                lemma_open_one(open@, index as int);
            }
            open.set(index, true);
            let mut i: usize = 0;
            while i < declarations.len()
                invariant
                    i <= declarations.len(),
                    index < files.len(),
                    open.len() == files.len(),
                    open@ == old(open)@.update(index as int, true),
                    files[index as int].content == (FileContent::Parsed {
                        declarations: *declarations,
                    }),
                    closed_count(open@) < closed_count(old(open)@),
                    views(nodes@) == file_fold(
                        files@,
                        open@,
                        views(old(nodes)@),
                        declarations@.take(i as int),
                        dir@,
                        files[index as int].path@,
                    ),
                    notes@ == old(notes)@ + fold_notes(
                        files@,
                        open@,
                        declarations@.take(i as int),
                        dir@,
                        index,
                    ),
                decreases declarations.len() - i,
            {
                assert(declarations@.take(i + 1).drop_last() =~= declarations@.take(i as int));
                process_top(
                    files,
                    open,
                    nodes,
                    notes,
                    &declarations[i],
                    dir,
                    &files[index].path,
                    index,
                );
                i = i + 1;
            }
            assert(declarations@.take(i as int) =~= declarations@);
            open.set(index, false);
        },
        FileContent::Unreadable { reason } => {
            notes.push(Diagnostic::Unreadable { file: index });
        },
        FileContent::Unparsable { reason } => {
            notes.push(Diagnostic::Unparsable { file: index });
        },
    }
}

/// What stands under `mod name;` declared in a file of the directory `dir`.
fn module_children(
    files: &Vec<SourceFile>,
    open: &mut Vec<bool>,
    notes: &mut Vec<Diagnostic>,
    dir: &String,
    name: &String,
    file: usize,
    line: usize,
) -> (r: Vec<ModuleNode>)
    requires
        old(open).len() == files.len(),
    ensures
        final(open)@ == old(open)@,
        views(r@) == module_nodes(files@, old(open)@, dir@, name@),
        final(notes)@ == old(notes)@ + module_notes(files@, old(open)@, dir@, name@, file, line),
    decreases closed_count(old(open)@), 1nat, 0nat,
{
    let mut children: Vec<ModuleNode> = Vec::new();
    assert(views(children@) =~= Seq::empty());
    let inner = child_path(dir.as_str(), name.as_str());
    let mut beside = inner.clone();
    beside.append(".rs");
    match find_file(files, &beside) {
        Some(index) => {
            process_file(files, open, &mut children, notes, index, dir);
        },
        None => {
            let nested = child_path(inner.as_str(), "mod.rs");
            match find_file(files, &nested) {
                Some(index) => {
                    process_file(files, open, &mut children, notes, index, &inner);
                },
                None => {
                    notes.push(Diagnostic::UnresolvedModule { file, line });
                },
            }
        },
    }
    children
}

/// Takes the top-level declaration `item` of the file `path` in the
/// directory `dir` into the row `nodes`.
fn process_top(
    files: &Vec<SourceFile>,
    open: &mut Vec<bool>,
    nodes: &mut Vec<ModuleNode>,
    notes: &mut Vec<Diagnostic>,
    item: &Declaration,
    dir: &String,
    path: &String,
    file: usize,
)
    requires
        old(open).len() == files.len(),
    ensures
        final(open)@ == old(open)@,
        views(final(nodes)@) == file_step(
            files@,
            old(open)@,
            views(old(nodes)@),
            *item,
            dir@,
            path@,
        ),
        final(notes)@ == old(notes)@ + step_notes(files@, old(open)@, *item, dir@, file),
    decreases closed_count(old(open)@), 2nat, 0nat,
{
    match &item.shape {
        Shape::Module { content: None } => {
            let mut node = make_leaf(item, NodeKind::Module, false, path);
            let children = module_children(
                files,
                open,
                notes,
                dir,
                &item.name,
                file,
                item.span.start_line,
            );
            node.children = children;
            proof {
                lemma_children_views(node);
            }
            push_node(nodes, node);
        },
        _ => {
            process_item(nodes, notes, item, path, file);
        },
    }
}

/// The directory of a project's entry files.
pub open spec fn source_dir(crate_path: Seq<char>) -> Seq<char> {
    child_path_of(crate_path, "src"@)
}

/// The children of a project's root: what the library entry `src/lib.rs`
/// declares, then what the binary entry `src/main.rs` declares, each as far
/// as `files` has it. Both go into one row, so an implementation block of
/// the second entry finds the types of the first.
pub open spec fn crate_nodes(files: Seq<SourceFile>, crate_path: Seq<char>) -> Seq<NodeView> {
    let dir = source_dir(crate_path);
    let closed = Seq::new(files.len(), |i: int| false);
    let library = match file_index(files, child_path_of(dir, "lib.rs"@)) {
        Some(index) => file_nodes(files, closed, Seq::empty(), index, dir),
        None => Seq::empty(),
    };
    match file_index(files, child_path_of(dir, "main.rs"@)) {
        Some(index) => file_nodes(files, closed, library, index, dir),
        None => library,
    }
}

/// What is reported while the tree of the project at `crate_path` is built:
/// what the two entry files give rise to, or that there is neither.
pub open spec fn crate_notes(files: Seq<SourceFile>, crate_path: Seq<char>) -> Seq<Diagnostic> {
    let dir = source_dir(crate_path);
    let closed = Seq::new(files.len(), |i: int| false);
    let library = file_index(files, child_path_of(dir, "lib.rs"@));
    let binary = file_index(files, child_path_of(dir, "main.rs"@));
    match (library, binary) {
        (Some(first), Some(second)) => file_notes(files, closed, first, dir) + file_notes(
            files,
            closed,
            second,
            dir,
        ),
        (Some(first), None) => file_notes(files, closed, first, dir),
        (None, Some(second)) => file_notes(files, closed, second, dir),
        (None, None) => seq![Diagnostic::MissingEntry],
    }
}

/// The tree of the project `name` at `crate_path`: a public root of kind
/// [`NodeKind::Crate`] over [`crate_nodes`].
pub open spec fn crate_tree(name: Seq<char>, crate_path: Seq<char>, files: Seq<SourceFile>)
    -> NodeView {
    NodeView {
        name,
        kind: NodeKind::Crate,
        visibility: AccessView::Public,
        is_async: false,
        children: crate_nodes(files, crate_path),
        path: crate_path,
    }
}

/// Builds the tree of the project `name` at `crate_path` from its files,
/// and says what it met on the way.
pub fn build_tree(name: String, crate_path: &str, files: &Vec<SourceFile>) -> (r: (
    ModuleNode,
    Vec<Diagnostic>,
))
    ensures
        r.0@ == crate_tree(name@, crate_path@, files@),
        r.1@ == crate_notes(files@, crate_path@),
{
    let dir = child_path(crate_path, "src");
    let mut open: Vec<bool> = Vec::new();
    while open.len() < files.len()
        invariant
            open.len() <= files.len(),
            forall|i: int| 0 <= i < open.len() ==> !open[i],
        decreases files.len() - open.len(),
    {
        open.push(false);
    }
    assert(open@ =~= Seq::new(files.len() as nat, |i: int| false));
    let mut children: Vec<ModuleNode> = Vec::new();
    let mut notes: Vec<Diagnostic> = Vec::new();
    assert(views(children@) =~= Seq::empty());
    let library = find_file(files, &child_path(dir.as_str(), "lib.rs"));
    let binary = find_file(files, &child_path(dir.as_str(), "main.rs"));
    match library {
        Some(index) => {
            process_file(files, &mut open, &mut children, &mut notes, index, &dir);
        },
        None => {},
    }
    match binary {
        Some(index) => {
            process_file(files, &mut open, &mut children, &mut notes, index, &dir);
        },
        None => {},
    }
    if library.is_none() && binary.is_none() {
        notes.push(Diagnostic::MissingEntry);
    }
    let root = ModuleNode {
        name,
        kind: NodeKind::Crate,
        visibility: Access::Public,
        is_async: false,
        children,
        path: crate_path.to_owned(),
    };
    proof {
        lemma_children_views(root);
    }
    (root, notes)
}

/// The files that are looked for and not there while the file at `index`
/// is taken in: see [`file_nodes`].
pub open spec fn file_wants(files: Seq<SourceFile>, open: Seq<bool>, index: int, dir: Seq<char>)
    -> Seq<Seq<char>>
    decreases closed_count(open), 0nat, 0nat,
    via file_wants_decreases
{
    if 0 <= index < files.len() && index < open.len() && !open[index] {
        match files[index].content {
            FileContent::Parsed { declarations } => fold_wants(
                files,
                open.update(index, true),
                declarations@,
                dir,
            ),
            _ => Seq::empty(),
        }
    } else {
        Seq::empty()
    }
}

#[via_fn]
proof fn file_wants_decreases(
    files: Seq<SourceFile>,
    open: Seq<bool>,
    index: int,
    dir: Seq<char>,
) {
    if 0 <= index < files.len() && index < open.len() && !open[index] {
        lemma_open_one(open, index);
    }
}

/// The files that are looked for and not there for `mod name;`: those that
/// the module's file gives rise to, or, where the module has no file, the
/// two it could have, the one beside the declaring file first.
pub open spec fn module_wants(
    files: Seq<SourceFile>,
    open: Seq<bool>,
    dir: Seq<char>,
    name: Seq<char>,
) -> Seq<Seq<char>>
    decreases closed_count(open), 1nat, 0nat,
{
    match file_index(files, sibling_file(dir, name)) {
        Some(index) => file_wants(files, open, index, dir),
        None => match file_index(files, nested_file(dir, name)) {
            Some(index) => file_wants(files, open, index, child_path_of(dir, name)),
            None => seq![sibling_file(dir, name), nested_file(dir, name)],
        },
    }
}

/// The files that are looked for and not there while the top-level
/// declarations `decls` are taken in, in the order in which they are looked
/// for.
pub open spec fn fold_wants(
    files: Seq<SourceFile>,
    open: Seq<bool>,
    decls: Seq<Declaration>,
    dir: Seq<char>,
) -> Seq<Seq<char>>
    decreases closed_count(open), 2nat, decls.len(),
{
    if decls.len() == 0 {
        Seq::empty()
    } else {
        fold_wants(files, open, decls.drop_last(), dir) + match decls.last().shape {
            Shape::Module { content: None } => module_wants(files, open, dir, decls.last().name@),
            _ => Seq::empty(),
        }
    }
}

/// What one entry file gives rise to: the files that are looked for and not
/// there while it is taken in, or the entry itself where it is not there.
pub open spec fn entry_wants(files: Seq<SourceFile>, dir: Seq<char>, name: Seq<char>) -> Seq<
    Seq<char>,
> {
    match file_index(files, child_path_of(dir, name)) {
        Some(index) => file_wants(files, Seq::new(files.len(), |i: int| false), index, dir),
        None => seq![child_path_of(dir, name)],
    }
}

/// The files that are looked for and not there while the tree of the
/// project at `crate_path` is built from `files`, in the order in which they
/// are looked for: the library entry or what it leads to, then the binary
/// entry or what it leads to.
pub open spec fn crate_wants(files: Seq<SourceFile>, crate_path: Seq<char>) -> Seq<Seq<char>> {
    entry_wants(files, source_dir(crate_path), "lib.rs"@) + entry_wants(
        files,
        source_dir(crate_path),
        "main.rs"@,
    )
}

/// Looks through the file at `index` for files that are not there.
fn wanted_in_file(
    files: &Vec<SourceFile>,
    open: &mut Vec<bool>,
    wants: &mut Vec<String>,
    index: usize,
    dir: &String,
)
    requires
        index < files.len(),
        old(open).len() == files.len(),
    ensures
        final(open)@ == old(open)@,
        texts(final(wants)@) == texts(old(wants)@) + file_wants(
            files@,
            old(open)@,
            index as int,
            dir@,
        ),
    decreases closed_count(old(open)@), 0nat, 0nat,
{
    if open[index] {
        assert(texts(wants@) =~= texts(old(wants)@) + Seq::empty());
        return ;
    }
    match &files[index].content {
        FileContent::Parsed { declarations } => {
            proof {
                lemma_open_one(open@, index as int);
            }
            open.set(index, true);
            let mut i: usize = 0;
            assert(texts(wants@) =~= texts(old(wants)@) + Seq::empty());
            while i < declarations.len()
                invariant
                    i <= declarations.len(),
                    index < files.len(),
                    open.len() == files.len(),
                    open@ == old(open)@.update(index as int, true),
                    closed_count(open@) < closed_count(old(open)@),
                    texts(wants@) == texts(old(wants)@) + fold_wants(
                        files@,
                        open@,
                        declarations@.take(i as int),
                        dir@,
                    ),
                decreases declarations.len() - i,
            {
                assert(declarations@.take(i + 1).drop_last() =~= declarations@.take(i as int));
                let ghost before = texts(wants@);
                match &declarations[i].shape {
                    Shape::Module { content: None } => {
                        wanted_for_module(files, open, wants, dir, &declarations[i].name);
                    },
                    _ => {},
                }
                assert(texts(wants@) =~= texts(old(wants)@) + fold_wants(
                    files@,
                    open@,
                    declarations@.take(i + 1),
                    dir@,
                ));
                i = i + 1;
            }
            assert(declarations@.take(i as int) =~= declarations@);
            open.set(index, false);
            assert(open@ =~= old(open)@);
        },
        _ => {
            assert(texts(wants@) =~= texts(old(wants)@) + Seq::empty());
        },
    }
}

/// Looks for the file of `mod name;` and, where it is there, through it.
fn wanted_for_module(
    files: &Vec<SourceFile>,
    open: &mut Vec<bool>,
    wants: &mut Vec<String>,
    dir: &String,
    name: &String,
)
    requires
        old(open).len() == files.len(),
    ensures
        final(open)@ == old(open)@,
        texts(final(wants)@) == texts(old(wants)@) + module_wants(
            files@,
            old(open)@,
            dir@,
            name@,
        ),
    decreases closed_count(old(open)@), 1nat, 0nat,
{
    let inner = child_path(dir.as_str(), name.as_str());
    let mut beside = inner.clone();
    beside.append(".rs");
    match find_file(files, &beside) {
        Some(index) => {
            wanted_in_file(files, open, wants, index, dir);
        },
        None => {
            let nested = child_path(inner.as_str(), "mod.rs");
            match find_file(files, &nested) {
                Some(index) => {
                    wanted_in_file(files, open, wants, index, &inner);
                },
                None => {
                    wants.push(beside);
                    wants.push(nested);
                    assert(texts(wants@) =~= texts(old(wants)@) + seq![beside@, nested@]);
                },
            }
        },
    }
}

/// The files that are looked for and not there while the tree of the
/// project at `crate_path` is built from `files`: see [`crate_wants`]. A
/// caller that reads files as they are asked for hands in what it has,
/// reads what of the result it finds, and asks again.
pub fn missing_files(crate_path: &str, files: &Vec<SourceFile>) -> (wants: Vec<String>)
    ensures
        texts(wants@) == crate_wants(files@, crate_path@),
{
    let dir = child_path(crate_path, "src");
    let mut open: Vec<bool> = Vec::new();
    while open.len() < files.len()
        invariant
            open.len() <= files.len(),
            forall|i: int| 0 <= i < open.len() ==> !open[i],
        decreases files.len() - open.len(),
    {
        open.push(false);
    }
    assert(open@ =~= Seq::new(files.len() as nat, |i: int| false));
    let mut wants: Vec<String> = Vec::new();
    assert(texts(wants@) =~= Seq::empty());
    let library = child_path(dir.as_str(), "lib.rs");
    match find_file(files, &library) {
        Some(index) => {
            wanted_in_file(files, &mut open, &mut wants, index, &dir);
        },
        None => {
            wants.push(library);
        },
    }
    assert(texts(wants@) =~= entry_wants(files@, dir@, "lib.rs"@));
    let ghost first = texts(wants@);
    let binary = child_path(dir.as_str(), "main.rs");
    match find_file(files, &binary) {
        Some(index) => {
            wanted_in_file(files, &mut open, &mut wants, index, &dir);
        },
        None => {
            wants.push(binary);
            assert(texts(wants@) =~= first + seq![binary@]);
        },
    }
    wants
}

/// What `toml`'s parser and `Value` hand out for `text`: the string that
/// stands under `key` in the table `table` of the document, if the text is
/// a document that has one.
pub uninterp spec fn toml_text(text: Seq<char>, table: Seq<char>, key: Seq<char>) -> Option<
    Seq<char>,
>;

/// `toml::Value`'s `FromStr`, `get` and `as_str`: parses `text` as a
/// document and looks up the string at `table.key`. `None` where the text
/// does not parse, a key is missing or the value is no string.
#[verifier::external_body]
fn toml_text_at(text: &str, table: &str, key: &str) -> (r: Option<String>)
    ensures
        text_of(r) == toml_text(text@, table@, key@),
{
    let value: toml::Value = text.parse().ok()?;
    Some(value.get(table)?.get(key)?.as_str()?.to_string())
}

/// `path` without what stands at its end and names nothing: separators,
/// and segments that are a single dot.
pub open spec fn path_stem(path: Seq<char>) -> Seq<char>
    decreases path.len(),
{
    if path.len() > 0 && path.last() == '/' {
        path_stem(path.drop_last())
    } else if path.len() >= 2 && path.last() == '.' && path[path.len() - 2] == '/' {
        path_stem(path.take(path.len() - 2))
    } else {
        path
    }
}

/// Where the last segment of `path` starts: behind its last separator, or
/// at its start where it has none.
pub open spec fn segment_start(path: Seq<char>) -> int
    decreases path.len(),
{
    if path.len() == 0 || path.last() == '/' {
        path.len() as int
    } else {
        segment_start(path.drop_last())
    }
}

/// The last component of `path`: the last segment of its stem, if that is
/// a name. An empty segment, `.` and `..` are none.
pub open spec fn last_component_of(path: Seq<char>) -> Option<Seq<char>> {
    let stem = path_stem(path);
    let name = stem.skip(segment_start(stem));
    if name.len() == 0 || name =~= seq!['.'] || name =~= seq!['.', '.'] {
        None
    } else {
        Some(name)
    }
}

/// The last component of `path`: see [`last_component_of`].
pub fn last_component(path: &str) -> (r: Option<String>)
    ensures
        text_of(r) == last_component_of(path@),
{
    let chars = chars_of(path);
    let mut end: usize = chars.len();
    assert(chars@.take(end as int) =~= chars@);
    loop
        invariant_except_break
            end <= chars.len(),
            path_stem(chars@) == path_stem(chars@.take(end as int)),
        ensures
            end <= chars.len(),
            path_stem(chars@) == chars@.take(end as int),
        decreases end,
    {
        let ghost head = chars@.take(end as int);
        if end > 0 && chars[end - 1] == '/' {
            assert(head.drop_last() =~= chars@.take(end - 1));
            end = end - 1;
        } else if end >= 2 && chars[end - 1] == '.' && chars[end - 2] == '/' {
            assert(head.take(head.len() - 2) =~= chars@.take(end - 2));
            end = end - 2;
        } else {
            break ;
        }
    }
    let ghost stem = chars@.take(end as int);
    let mut start: usize = end;
    assert(stem.take(start as int) =~= stem);
    while start > 0 && chars[start - 1] != '/'
        invariant
            start <= end <= chars.len(),
            stem == chars@.take(end as int),
            segment_start(stem) == segment_start(stem.take(start as int)),
        decreases start,
    {
        assert(stem.take(start as int).drop_last() =~= stem.take(start - 1));
        start = start - 1;
    }
    let length = end - start;
    proof {
        let name = stem.skip(start as int);
        if start > 0 {
            assert(stem.take(start as int).last() == chars[start - 1]);
        }
        assert(segment_start(stem.take(start as int)) == start);
        assert(name =~= chars@.subrange(start as int, end as int));
        assert(name.len() == length);
        if length == 1 {
            assert(name[0] == chars[start as int]);
            assert(chars[start as int] == '.' ==> name =~= seq!['.']);
            assert(name =~= seq!['.'] ==> name[0] == seq!['.'][0]);
        }
        if length == 2 {
            assert(name[0] == chars[start as int] && name[1] == chars[start + 1]);
            assert(chars[start as int] == '.' && chars[start + 1] == '.' ==> name =~= seq!['.', '.']);
            assert(name =~= seq!['.', '.'] ==> name[0] == seq!['.', '.'][0] && name[1]
                == seq!['.', '.'][1]);
        }
    }
    if length == 0 || (length == 1 && chars[start] == '.') || (length == 2 && chars[start] == '.'
        && chars[start + 1] == '.') {
        None
    } else {
        Some(text_from(&chars, start, end))
    }
}

/// The text of a manifest that was read.
pub open spec fn manifest_text(manifest: Option<&str>) -> Option<Seq<char>> {
    match manifest {
        Some(text) => Some(text@),
        None => None,
    }
}

/// The name that a manifest declares for its package, if it is read and
/// declares one.
pub open spec fn declared_name(manifest: Option<Seq<char>>) -> Option<Seq<char>> {
    match manifest {
        Some(text) => toml_text(text, "package"@, "name"@),
        None => None,
    }
}

/// The project's name, given what the manifest declares and what the last
/// component of the project's path is: the first that is there, else
/// `unknown_crate`.
pub open spec fn picked_name(declared: Option<Seq<char>>, component: Option<Seq<char>>) -> Seq<
    char,
> {
    match declared {
        Some(name) => name,
        None => match component {
            Some(name) => name,
            None => "unknown_crate"@,
        },
    }
}

/// The name of the project at `crate_path`, given the text of its manifest
/// where that was read: the package name that the manifest declares, else
/// the last component of the path, else `unknown_crate`.
pub open spec fn crate_name_of(manifest: Option<Seq<char>>, crate_path: Seq<char>) -> Seq<char> {
    picked_name(declared_name(manifest), last_component_of(crate_path))
}

/// Picks the project's name: see [`picked_name`].
pub fn pick_crate_name(declared: Option<String>, component: Option<String>) -> (name: String)
    ensures
        name@ == picked_name(text_of(declared), text_of(component)),
{
    match declared {
        Some(name) => name,
        None => match component {
            Some(name) => name,
            None => "unknown_crate".to_owned(),
        },
    }
}

/// The name a project goes by when its manifest gives none: the last
/// component of its path, or `unknown_crate` where the path has none.
pub fn fallback_crate_name(crate_path: &str) -> (name: String)
    ensures
        name@ == picked_name(None, last_component_of(crate_path@)),
{
    pick_crate_name(None, last_component(crate_path))
}

/// The project's name: the package name that the manifest declares, where
/// it was read (`manifest` is its text) and declares one; else as
/// [`fallback_crate_name`] has it. A manifest that does not parse counts as
/// one that declares nothing.
pub fn get_crate_name(manifest: Option<&str>, crate_path: &str) -> (name: String)
    ensures
        name@ == crate_name_of(manifest_text(manifest), crate_path@),
{
    let declared = match manifest {
        Some(text) => toml_text_at(text, "package", "name"),
        None => None,
    };
    pick_crate_name(declared, last_component(crate_path))
}

/// Builds the tree of the project at `crate_path` from its files, under the
/// name that [`get_crate_name`] gives it, and says what it met on the way.
pub fn parse_crate(crate_path: &str, manifest: Option<&str>, files: &Vec<SourceFile>) -> (r: (
    ModuleNode,
    Vec<Diagnostic>,
))
    ensures
        r.0@ == crate_tree(
            crate_name_of(manifest_text(manifest), crate_path@),
            crate_path@,
            files@,
        ),
        r.1@ == crate_notes(files@, crate_path@),
{
    let name = get_crate_name(manifest, crate_path);
    build_tree(name, crate_path, files)
}

/// What a line of the printed tree says of a node: `mod`, `struct` or
/// `enum` and the name; `fn` and the name for a function or method, with
/// `async` in front where it is one; the bare name for anything else.
pub open spec fn node_label(node: NodeView) -> Seq<char> {
    match node.kind {
        NodeKind::Module => "mod "@ + node.name,
        NodeKind::Struct => "struct "@ + node.name,
        NodeKind::Enum => "enum "@ + node.name,
        NodeKind::Function | NodeKind::Method => if node.is_async {
            "async fn "@ + node.name
        } else {
            "fn "@ + node.name
        },
        NodeKind::Crate => node.name,
    }
}

/// What a line says of a node's visibility: nothing for a private node,
/// else a colon and the visibility's label.
pub open spec fn visibility_suffix(node: NodeView) -> Seq<char> {
    if node.visibility is Private {
        Seq::empty()
    } else {
        ": "@ + node.visibility.label()
    }
}

/// What stands in front of a line for the ancestors of its node, the
/// outermost first: blanks under an ancestor that was the last of its row,
/// a bar under any other.
pub open spec fn indentation(ancestors: Seq<bool>) -> Seq<char>
    decreases ancestors.len(),
{
    if ancestors.len() == 0 {
        Seq::empty()
    } else {
        indentation(ancestors.drop_last()) + if ancestors.last() {
            "    "@
        } else {
            "│   "@
        }
    }
}

/// The line of `node`, with its line feed.
pub open spec fn node_line(node: NodeView, ancestors: Seq<bool>, is_last: bool) -> Seq<char> {
    indentation(ancestors) + (if is_last {
        "└── "@
    } else {
        "├── "@
    }) + node_label(node) + visibility_suffix(node) + "\n"@
}

/// The lines of `node` and of all that stands under it.
pub open spec fn node_lines(node: NodeView, ancestors: Seq<bool>, is_last: bool) -> Seq<char>
    decreases node, 0nat,
{
    node_line(node, ancestors, is_last) + row_lines(
        node.children,
        ancestors.push(is_last),
        node.children.len() as int,
    )
}

/// The lines of the first `upto` nodes of the row `nodes`, each with all
/// that stands under it.
pub open spec fn row_lines(nodes: Seq<NodeView>, ancestors: Seq<bool>, upto: int) -> Seq<char>
    decreases nodes, upto,
{
    if 0 < upto <= nodes.len() {
        row_lines(nodes, ancestors, upto - 1) + node_lines(
            nodes[upto - 1],
            ancestors,
            upto == nodes.len(),
        )
    } else {
        Seq::empty()
    }
}

/// The printed tree: a line for the project, then the lines of its
/// children.
pub open spec fn tree_text(root: NodeView) -> Seq<char> {
    "crate "@ + root.name + "\n"@ + row_lines(root.children, Seq::empty(), root.children.len() as int)
}

/// Puts [`node_label`] of `node` behind `out`.
fn push_label(out: &mut String, node: &ModuleNode)
    ensures
        final(out)@ == old(out)@ + node_label(node@),
{
    match node.kind {
        NodeKind::Module => {
            out.append("mod ");
        },
        NodeKind::Struct => {
            out.append("struct ");
        },
        NodeKind::Enum => {
            out.append("enum ");
        },
        NodeKind::Function | NodeKind::Method => {
            if node.is_async {
                out.append("async fn ");
            } else {
                out.append("fn ");
            }
        },
        NodeKind::Crate => {},
    }
    out.append(node.name.as_str());
}

/// Puts [`visibility_suffix`] of `node` behind `out`.
fn push_suffix(out: &mut String, node: &ModuleNode)
    ensures
        final(out)@ == old(out)@ + visibility_suffix(node@),
{
    match node.visibility {
        Access::Private => {},
        _ => {
            out.append(": ");
            let label = node.visibility.label();
            out.append(label.as_str());
        },
    }
}

/// Puts [`indentation`] of `ancestors` behind `out`.
fn push_indentation(out: &mut String, ancestors: &Vec<bool>)
    ensures
        final(out)@ == old(out)@ + indentation(ancestors@),
{
    let mut i: usize = 0;
    while i < ancestors.len()
        invariant
            i <= ancestors.len(),
            out@ == old(out)@ + indentation(ancestors@.take(i as int)),
        decreases ancestors.len() - i,
    {
        assert(ancestors@.take(i + 1).drop_last() =~= ancestors@.take(i as int));
        if ancestors[i] {
            out.append("    ");
        } else {
            out.append("│   ");
        }
        i = i + 1;
    }
    assert(ancestors@.take(i as int) =~= ancestors@);
}

/// Puts the lines of the row `nodes`, each node with all that stands under
/// it, behind `out`.
fn print_modules(nodes: &Vec<ModuleNode>, ancestors: &mut Vec<bool>, out: &mut String)
    ensures
        final(ancestors)@ == old(ancestors)@,
        final(out)@ == old(out)@ + row_lines(views(nodes@), old(ancestors)@, nodes.len() as int),
    decreases nodes,
{
    let mut idx: usize = 0;
    while idx < nodes.len()
        invariant
            idx <= nodes.len(),
            ancestors@ == old(ancestors)@,
            out@ == old(out)@ + row_lines(views(nodes@), ancestors@, idx as int),
        decreases nodes.len() - idx,
    {
        let node = &nodes[idx];
        let is_last = idx + 1 == nodes.len();
        let ghost start = out@;
        push_indentation(out, ancestors);
        if is_last {
            out.append("└── ");
        } else {
            out.append("├── ");
        }
        push_label(out, node);
        push_suffix(out, node);
        out.append("\n");
        let ghost outer = ancestors@;
        ancestors.push(is_last);
        print_modules(&node.children, ancestors, out);
        ancestors.pop();
        proof {
            lemma_children_views(*node);
            assert(ancestors@ =~= outer);
            assert(out@ =~= start + node_lines(node@, outer, is_last));
            assert(out@ =~= old(out)@ + row_lines(views(nodes@), outer, idx + 1));
        }
        idx = idx + 1;
    }
}

/// The tree in print: a line for the project, then one line for each node
/// under it, children behind their parent.
pub fn print_module_tree(root: &ModuleNode) -> (text: String)
    ensures
        text@ == tree_text(root@),
{
    let mut out = "crate ".to_owned();
    out.append(root.name.as_str());
    out.append("\n");
    let mut ancestors: Vec<bool> = Vec::new();
    print_modules(&root.children, &mut ancestors, &mut out);
    proof {
        lemma_children_views(*root);
    }
    out
}

} // verus!
