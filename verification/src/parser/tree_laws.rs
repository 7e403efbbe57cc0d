//! What holds of every tree that the builder makes.

use crate::parser::structure::{
    child_path_of, closed_count, crate_nodes, crate_tree, file_fold, file_index, file_nodes,
    file_step, is_first_type_named, is_type_named, item_notes, item_step, items_fold,
    lemma_open_one,
    method_nodes, module_nodes, nested_file, sibling_file, source_dir, step_notes, type_index,
    Diagnostic, FileContent, NodeKind, NodeView, SourceFile,
};
use crate::parser::syntax::{Declaration, Shape};
use vstd::prelude::*;

verus! {

/// Whether `decl` declares the struct or enum called `target`.
pub open spec fn declares_type(decl: Declaration, target: Seq<char>) -> bool {
    (decl.shape is Struct || decl.shape is Enum) && decl.name@ == target
}

/// Whether one of `decls` declares the struct or enum called `target`.
pub open spec fn declared(decls: Seq<Declaration>, target: Seq<char>) -> bool {
    exists|i: int| 0 <= i < decls.len() && declares_type(#[trigger] decls[i], target)
}

/// Whether `decl` is an implementation block for the type called `target`.
pub open spec fn targets(decl: Declaration, target: Seq<char>) -> bool {
    match decl.shape {
        Shape::Impl { target: Some(name), methods } => name@ == target,
        _ => false,
    }
}

/// The method nodes that `decl` brings if it is an implementation block.
pub open spec fn brought(decl: Declaration, path: Seq<char>) -> Seq<NodeView> {
    match decl.shape {
        Shape::Impl { target, methods } => method_nodes(methods@, path),
        _ => Seq::empty(),
    }
}

/// The methods that the implementation blocks of `decls` give to the type
/// called `target`: those of each block for that type that stands behind a
/// declaration of the type, in order.
pub open spec fn attached(decls: Seq<Declaration>, target: Seq<char>, path: Seq<char>) -> Seq<
    NodeView,
>
    decreases decls.len(),
{
    if decls.len() == 0 {
        Seq::empty()
    } else if targets(decls.last(), target) && declared(decls.drop_last(), target) {
        attached(decls.drop_last(), target, path) + brought(decls.last(), path)
    } else {
        attached(decls.drop_last(), target, path)
    }
}

/// Whether no node of the row is the struct or enum called `target`.
pub open spec fn lacks_type(nodes: Seq<NodeView>, target: Seq<char>) -> bool {
    forall|k: int| 0 <= k < nodes.len() ==> !is_type_named(#[trigger] nodes[k], target)
}

/// The first struct or enum of a name is where [`type_index`] says.
pub proof fn lemma_type_index(nodes: Seq<NodeView>, target: Seq<char>, index: int)
    requires
        is_first_type_named(nodes, target, index),
    ensures
        type_index(nodes, target) == Some(index),
{
    let found = choose|j: int| is_first_type_named(nodes, target, j);
    assert(is_first_type_named(nodes, target, found));
    if found < index {
        assert(!is_type_named(nodes[found], target));
    }
    if index < found {
        assert(!is_type_named(nodes[index], target));
    }
}

/// A row without a struct or enum of a name has no [`type_index`] for it.
pub proof fn lemma_no_type_index(nodes: Seq<NodeView>, target: Seq<char>)
    requires
        lacks_type(nodes, target),
    ensures
        type_index(nodes, target) is None,
{
}

/// An implementation block whose target is no struct or enum of the row
/// leaves the row as it is, inside a module and at the top level of a
/// file, and nothing is reported for it.
pub proof fn lemma_unresolved_impl_changes_nothing(
    files: Seq<SourceFile>,
    open: Seq<bool>,
    nodes: Seq<NodeView>,
    decl: Declaration,
    dir: Seq<char>,
    path: Seq<char>,
)
    requires
        decl.shape is Impl,
        forall|target: Seq<char>| targets(decl, target) ==> lacks_type(nodes, target),
    ensures
        item_step(nodes, decl, path) == nodes,
        file_step(files, open, nodes, decl, dir, path) == nodes,
        forall|file: usize|
            #[trigger] step_notes(files, open, decl, dir, file) == Seq::<Diagnostic>::empty(),
        forall|file: usize| #[trigger] item_notes(decl, file) == Seq::<Diagnostic>::empty(),
{
    match decl.shape {
        Shape::Impl { target: Some(name), methods } => {
            assert(targets(decl, name@));
            lemma_no_type_index(nodes, name@);
        },
        _ => {},
    }
}

/// What one declaration does to the first struct or enum called `target`
/// of a row: it is the one to make it if the row has none and it declares
/// it; it adds its methods to it if it is an implementation block for it;
/// else it leaves it alone.
pub proof fn lemma_item_step_type(
    nodes: Seq<NodeView>,
    decl: Declaration,
    path: Seq<char>,
    target: Seq<char>,
)
    ensures
        lacks_type(nodes, target) && !declares_type(decl, target) ==> lacks_type(
            item_step(nodes, decl, path),
            target,
        ),
        lacks_type(nodes, target) && declares_type(decl, target) ==> is_first_type_named(
            item_step(nodes, decl, path),
            target,
            nodes.len() as int,
        ) && item_step(nodes, decl, path)[nodes.len() as int].children == Seq::<NodeView>::empty(),
        forall|j: int|
            is_first_type_named(nodes, target, j) ==> #[trigger] is_first_type_named(
                item_step(nodes, decl, path),
                target,
                j,
            ) && item_step(nodes, decl, path)[j].children == nodes[j].children + (if targets(
                decl,
                target,
            ) {
                brought(decl, path)
            } else {
                Seq::empty()
            }),
{
    let next = item_step(nodes, decl, path);
    match decl.shape {
        Shape::Impl { target: Some(name), methods } => {
            match type_index(nodes, name@) {
                Some(index) => {
                    let found = choose|j: int| is_first_type_named(nodes, name@, j);
                    assert(is_first_type_named(nodes, name@, found));
                    assert(index == found);
                    assert forall|k: int| 0 <= k < nodes.len() implies is_type_named(
                        #[trigger] next[k],
                        target,
                    ) == is_type_named(nodes[k], target) by {}
                    assert forall|j: int| is_first_type_named(nodes, target, j) implies next[j].children
                        == nodes[j].children + (if targets(decl, target) {
                        brought(decl, path)
                    } else {
                        Seq::empty()
                    }) by {
                        if name@ == target {
                            lemma_type_index(nodes, target, j);
                        } else {
                            assert(nodes[j].children + Seq::<NodeView>::empty() =~= nodes[j].children);
                        }
                    }
                },
                None => {
                    if name@ == target {
                        assert forall|j: int| is_first_type_named(nodes, target, j) implies false by {
                            lemma_type_index(nodes, target, j);
                        }
                    }
                    assert forall|j: int| 0 <= j < nodes.len() implies nodes[j].children
                        + Seq::<NodeView>::empty() =~= #[trigger] nodes[j].children by {}
                },
            }
        },
        _ => {
            assert forall|j: int| 0 <= j < nodes.len() implies nodes[j].children + Seq::<
                NodeView,
            >::empty() =~= #[trigger] nodes[j].children by {}
        },
    }
}

/// A scope that does not declare `target` gives it no methods.
pub proof fn lemma_undeclared_has_none(decls: Seq<Declaration>, path: Seq<char>, target: Seq<char>)
    requires
        !declared(decls, target),
    ensures
        attached(decls, target, path) == Seq::<NodeView>::empty(),
    decreases decls.len(),
{
    if decls.len() > 0 {
        let before = decls.drop_last();
        assert(!declared(before, target)) by {
            if declared(before, target) {
                let i = choose|i: int|
                    0 <= i < before.len() && declares_type(#[trigger] before[i], target);
                assert(declares_type(decls[i], target));
            }
        }
        lemma_undeclared_has_none(before, path, target);
    }
}

/// In a scope that holds a struct or enum called `target`, the first one
/// has under it exactly the methods of the implementation blocks for
/// `target` that stand behind a declaration of it, in order. In a scope
/// that holds none, no node is a struct or enum of that name.
pub proof fn lemma_methods_under_type(decls: Seq<Declaration>, path: Seq<char>, target: Seq<char>)
    ensures
        !declared(decls, target) ==> lacks_type(items_fold(Seq::empty(), decls, path), target),
        declared(decls, target) ==> type_index(items_fold(Seq::empty(), decls, path), target)
            is Some && items_fold(Seq::empty(), decls, path)[type_index(
            items_fold(Seq::empty(), decls, path),
            target,
        )->0].children == attached(decls, target, path),
    decreases decls.len(),
{
    let row = items_fold(Seq::empty(), decls, path);
    if decls.len() > 0 {
        let before = decls.drop_last();
        let last = decls.last();
        let prev = items_fold(Seq::empty(), before, path);
        lemma_methods_under_type(before, path, target);
        lemma_item_step_type(prev, last, path, target);
        assert(forall|i: int| 0 <= i < before.len() ==> before[i] == decls[i]);
        if declared(before, target) {
            let j = type_index(prev, target)->0;
            let found = choose|k: int| is_first_type_named(prev, target, k);
            assert(is_first_type_named(prev, target, found));
            assert(is_first_type_named(row, target, j));
            lemma_type_index(row, target, j);
            assert(declared(decls, target));
            if !targets(last, target) {
                assert(prev[j].children + Seq::<NodeView>::empty() =~= prev[j].children);
            }
        } else {
            lemma_no_type_index(prev, target);
            if declares_type(last, target) {
                assert(declares_type(decls[decls.len() - 1], target));
                lemma_type_index(row, target, prev.len() as int);
                lemma_undeclared_has_none(before, path, target);
            } else {
                assert(!declared(decls, target)) by {
                    if declared(decls, target) {
                        let i = choose|i: int|
                            0 <= i < decls.len() && declares_type(#[trigger] decls[i], target);
                        if i < before.len() {
                            assert(declares_type(before[i], target));
                        }
                    }
                }
            }
        }
    }
}

/// What [`lemma_item_step_type`] says of a declaration inside a module
/// holds of a top-level declaration of a file as well.
pub proof fn lemma_file_step_type(
    files: Seq<SourceFile>,
    open: Seq<bool>,
    nodes: Seq<NodeView>,
    decl: Declaration,
    dir: Seq<char>,
    path: Seq<char>,
    target: Seq<char>,
)
    ensures
        lacks_type(nodes, target) && !declares_type(decl, target) ==> lacks_type(
            file_step(files, open, nodes, decl, dir, path),
            target,
        ),
        lacks_type(nodes, target) && declares_type(decl, target) ==> is_first_type_named(
            file_step(files, open, nodes, decl, dir, path),
            target,
            nodes.len() as int,
        ) && file_step(files, open, nodes, decl, dir, path)[nodes.len() as int].children == Seq::<
            NodeView,
        >::empty(),
        forall|j: int|
            is_first_type_named(nodes, target, j) ==> #[trigger] is_first_type_named(
                file_step(files, open, nodes, decl, dir, path),
                target,
                j,
            ) && file_step(files, open, nodes, decl, dir, path)[j].children == nodes[j].children + (
            if targets(decl, target) {
                brought(decl, path)
            } else {
                Seq::empty()
            }),
{
    match decl.shape {
        Shape::Module { content: None } => {
            assert forall|j: int| 0 <= j < nodes.len() implies nodes[j].children + Seq::<
                NodeView,
            >::empty() =~= #[trigger] nodes[j].children by {}
        },
        _ => {
            lemma_item_step_type(nodes, decl, path, target);
        },
    }
}

/// What [`lemma_methods_under_type`] says of the content of a module holds
/// of the top level of a file as well.
pub proof fn lemma_methods_under_type_in_file(
    files: Seq<SourceFile>,
    open: Seq<bool>,
    decls: Seq<Declaration>,
    dir: Seq<char>,
    path: Seq<char>,
    target: Seq<char>,
)
    ensures
        !declared(decls, target) ==> lacks_type(file_fold(files, open, Seq::empty(), decls, dir, path), target),
        declared(decls, target) ==> type_index(file_fold(files, open, Seq::empty(), decls, dir, path), target)
            is Some && file_fold(files, open, Seq::empty(), decls, dir, path)[type_index(
            file_fold(files, open, Seq::empty(), decls, dir, path),
            target,
        )->0].children == attached(decls, target, path),
    decreases decls.len(),
{
    let row = file_fold(files, open, Seq::empty(), decls, dir, path);
    if decls.len() > 0 {
        let before = decls.drop_last();
        let last = decls.last();
        let prev = file_fold(files, open, Seq::empty(), before, dir, path);
        lemma_methods_under_type_in_file(files, open, before, dir, path, target);
        lemma_file_step_type(files, open, prev, last, dir, path, target);
        assert(forall|i: int| 0 <= i < before.len() ==> before[i] == decls[i]);
        if declared(before, target) {
            let j = type_index(prev, target)->0;
            let found = choose|k: int| is_first_type_named(prev, target, k);
            assert(is_first_type_named(prev, target, found));
            assert(is_first_type_named(row, target, j));
            lemma_type_index(row, target, j);
            assert(declared(decls, target));
            if !targets(last, target) {
                assert(prev[j].children + Seq::<NodeView>::empty() =~= prev[j].children);
            }
        } else {
            lemma_no_type_index(prev, target);
            if declares_type(last, target) {
                assert(declares_type(decls[decls.len() - 1], target));
                lemma_type_index(row, target, prev.len() as int);
                lemma_undeclared_has_none(before, path, target);
            } else {
                assert(!declared(decls, target)) by {
                    if declared(decls, target) {
                        let i = choose|i: int|
                            0 <= i < decls.len() && declares_type(#[trigger] decls[i], target);
                        if i < before.len() {
                            assert(declares_type(before[i], target));
                        }
                    }
                }
            }
        }
    }
}

/// Where one implementation block for `target` stands in a scope, behind
/// the declaration of `target`, the type has the block's methods under it
/// and nothing else: [`attached`] is what that block brings.
pub proof fn lemma_single_impl(
    decls: Seq<Declaration>,
    path: Seq<char>,
    target: Seq<char>,
    declaration: int,
    block: int,
)
    requires
        0 <= declaration < block < decls.len(),
        declares_type(decls[declaration], target),
        targets(decls[block], target),
        forall|k: int| 0 <= k < decls.len() && k != block ==> !targets(#[trigger] decls[k], target),
    ensures
        declared(decls, target),
        attached(decls, target, path) == brought(decls[block], path),
    decreases decls.len(),
{
    let before = decls.drop_last();
    if block == decls.len() - 1 {
        assert(before[declaration] == decls[declaration]);
        assert(declared(before, target));
        lemma_no_impl(before, path, target);
        assert(Seq::<NodeView>::empty() + brought(decls[block], path) =~= brought(
            decls[block],
            path,
        ));
    } else {
        assert(before[declaration] == decls[declaration]);
        assert(before[block] == decls[block]);
        lemma_single_impl(before, path, target, declaration, block);
    }
}

/// A scope without an implementation block for `target` gives the type no
/// methods.
pub proof fn lemma_no_impl(decls: Seq<Declaration>, path: Seq<char>, target: Seq<char>)
    requires
        forall|k: int| 0 <= k < decls.len() ==> !targets(#[trigger] decls[k], target),
    ensures
        attached(decls, target, path) == Seq::<NodeView>::empty(),
    decreases decls.len(),
{
    if decls.len() > 0 {
        assert(forall|i: int| 0 <= i < decls.len() - 1 ==> decls.drop_last()[i] == decls[i]);
        lemma_no_impl(decls.drop_last(), path, target);
    }
}

/// An implementation block that stands anywhere behind the declaration of
/// its type in the same scope, and is the only one for that type there,
/// gives the type exactly its functions as children, each a method: the
/// first struct or enum of that name has [`brought`] of the block under it.
/// This holds inside a module and at the top level of a file.
pub proof fn lemma_impl_behind_type(
    files: Seq<SourceFile>,
    open: Seq<bool>,
    decls: Seq<Declaration>,
    dir: Seq<char>,
    path: Seq<char>,
    target: Seq<char>,
    declaration: int,
    block: int,
)
    requires
        0 <= declaration < block < decls.len(),
        declares_type(decls[declaration], target),
        targets(decls[block], target),
        forall|k: int| 0 <= k < decls.len() && k != block ==> !targets(#[trigger] decls[k], target),
    ensures
        type_index(items_fold(Seq::empty(), decls, path), target) is Some,
        items_fold(Seq::empty(), decls, path)[type_index(
            items_fold(Seq::empty(), decls, path),
            target,
        )->0].children == brought(decls[block], path),
        type_index(file_fold(files, open, Seq::empty(), decls, dir, path), target) is Some,
        file_fold(files, open, Seq::empty(), decls, dir, path)[type_index(
            file_fold(files, open, Seq::empty(), decls, dir, path),
            target,
        )->0].children == brought(decls[block], path),
        forall|i: int|
            0 <= i < brought(decls[block], path).len() ==> (#[trigger] brought(
                decls[block],
                path,
            )[i]).kind == NodeKind::Method,
{
    lemma_single_impl(decls, path, target, declaration, block);
    lemma_methods_under_type(decls, path, target);
    lemma_methods_under_type_in_file(files, open, decls, dir, path, target);
}

/// Whether a node of the kind `child` may stand right under one of the kind
/// `parent`: declarations under the root and under modules, methods under
/// structs and enums and nowhere else, nothing under functions and
/// methods, and no second root.
pub open spec fn allowed_under(parent: NodeKind, child: NodeKind) -> bool {
    match parent {
        NodeKind::Crate | NodeKind::Module => child == NodeKind::Module || child
            == NodeKind::Struct || child == NodeKind::Enum || child == NodeKind::Function,
        NodeKind::Struct | NodeKind::Enum => child == NodeKind::Method,
        NodeKind::Function | NodeKind::Method => false,
    }
}

/// Whether `node` may be what its `is_async` says: only a function or a
/// method is `async`.
pub open spec fn async_fits(node: NodeView) -> bool {
    node.is_async ==> node.kind == NodeKind::Function || node.kind == NodeKind::Method
}

/// Whether every node under `node` stands where [`allowed_under`] lets it,
/// and is `async` only where [`async_fits`] lets it.
pub open spec fn well_shaped(node: NodeView) -> bool
    decreases node,
{
    forall|i: int|
        0 <= i < node.children.len() ==> allowed_under(
            node.kind,
            (#[trigger] node.children[i]).kind,
        ) && async_fits(node.children[i]) && well_shaped(node.children[i])
}

/// Whether the nodes of a row may stand under a module and each is well
/// shaped, in itself and in what stands under it.
pub open spec fn row_shaped(nodes: Seq<NodeView>) -> bool {
    forall|i: int|
        0 <= i < nodes.len() ==> allowed_under(NodeKind::Module, (#[trigger] nodes[i]).kind)
            && async_fits(nodes[i]) && well_shaped(nodes[i])
}

/// Taking in a declaration keeps a row well shaped: what it adds stands
/// where its kind may stand, and is `async` only if it is a function or a
/// method.
pub proof fn lemma_item_step_shaped(nodes: Seq<NodeView>, decl: Declaration, path: Seq<char>)
    requires
        row_shaped(nodes),
    ensures
        row_shaped(item_step(nodes, decl, path)),
    decreases decl,
{
    let next = item_step(nodes, decl, path);
    match decl.shape {
        Shape::Module { content: Some(inner) } => {
            lemma_items_fold_shaped(Seq::empty(), inner@, path);
            assert(well_shaped(next[nodes.len() as int]));
        },
        Shape::Impl { target: Some(name), methods } => {
            match type_index(nodes, name@) {
                Some(index) => {
                    let found = choose|j: int| is_first_type_named(nodes, name@, j);
                    assert(is_first_type_named(nodes, name@, found));
                    let extra = method_nodes(methods@, path);
                    assert forall|i: int| 0 <= i < next[index].children.len() implies allowed_under(
                        next[index].kind,
                        (#[trigger] next[index].children[i]).kind,
                    ) && well_shaped(next[index].children[i]) by {
                        if i < nodes[index].children.len() {
                            assert(next[index].children[i] == nodes[index].children[i]);
                        } else {
                            assert(next[index].children[i] == extra[i - nodes[index].children.len()]);
                        }
                    }
                    assert(well_shaped(next[index]));
                },
                None => {},
            }
        },
        _ => {},
    }
}

/// Taking in declarations one after the other keeps a row well shaped.
pub proof fn lemma_items_fold_shaped(nodes: Seq<NodeView>, decls: Seq<Declaration>, path: Seq<char>)
    requires
        row_shaped(nodes),
    ensures
        row_shaped(items_fold(nodes, decls, path)),
    decreases decls,
{
    if decls.len() > 0 {
        lemma_items_fold_shaped(nodes, decls.drop_last(), path);
        lemma_item_step_shaped(items_fold(nodes, decls.drop_last(), path), decls.last(), path);
    }
}

/// Taking in a file keeps a row well shaped.
pub proof fn lemma_file_nodes_shaped(
    files: Seq<SourceFile>,
    open: Seq<bool>,
    nodes: Seq<NodeView>,
    index: int,
    dir: Seq<char>,
)
    requires
        row_shaped(nodes),
    ensures
        row_shaped(file_nodes(files, open, nodes, index, dir)),
    decreases closed_count(open), 0nat, 0nat,
{
    if 0 <= index < files.len() && index < open.len() && !open[index] {
        lemma_open_one(open, index);
        match files[index].content {
            FileContent::Parsed { declarations } => {
                lemma_file_fold_shaped(
                    files,
                    open.update(index, true),
                    nodes,
                    declarations@,
                    dir,
                    files[index].path@,
                );
            },
            _ => {},
        }
    }
}

/// What stands under `mod name;` is a well shaped row.
pub proof fn lemma_module_nodes_shaped(
    files: Seq<SourceFile>,
    open: Seq<bool>,
    dir: Seq<char>,
    name: Seq<char>,
)
    ensures
        row_shaped(module_nodes(files, open, dir, name)),
    decreases closed_count(open), 1nat, 0nat,
{
    match file_index(files, sibling_file(dir, name)) {
        Some(index) => {
            lemma_file_nodes_shaped(files, open, Seq::empty(), index, dir);
        },
        None => match file_index(files, nested_file(dir, name)) {
            Some(index) => {
                lemma_file_nodes_shaped(
                    files,
                    open,
                    Seq::empty(),
                    index,
                    child_path_of(dir, name),
                );
            },
            None => {},
        },
    }
}

/// Taking in a top-level declaration of a file keeps a row well shaped.
pub proof fn lemma_file_step_shaped(
    files: Seq<SourceFile>,
    open: Seq<bool>,
    nodes: Seq<NodeView>,
    decl: Declaration,
    dir: Seq<char>,
    path: Seq<char>,
)
    requires
        row_shaped(nodes),
    ensures
        row_shaped(file_step(files, open, nodes, decl, dir, path)),
    decreases closed_count(open), 2nat, 0nat,
{
    let next = file_step(files, open, nodes, decl, dir, path);
    match decl.shape {
        Shape::Module { content: None } => {
            lemma_module_nodes_shaped(files, open, dir, decl.name@);
            assert(well_shaped(next[nodes.len() as int]));
        },
        _ => {
            lemma_item_step_shaped(nodes, decl, path);
        },
    }
}

/// Taking in the top-level declarations of a file one after the other keeps
/// a row well shaped.
pub proof fn lemma_file_fold_shaped(
    files: Seq<SourceFile>,
    open: Seq<bool>,
    nodes: Seq<NodeView>,
    decls: Seq<Declaration>,
    dir: Seq<char>,
    path: Seq<char>,
)
    requires
        row_shaped(nodes),
    ensures
        row_shaped(file_fold(files, open, nodes, decls, dir, path)),
    decreases closed_count(open), 3nat, decls.len(),
{
    if decls.len() > 0 {
        lemma_file_fold_shaped(files, open, nodes, decls.drop_last(), dir, path);
        lemma_file_step_shaped(
            files,
            open,
            file_fold(files, open, nodes, decls.drop_last(), dir, path),
            decls.last(),
            dir,
            path,
        );
    }
}

/// Every tree that is built has one root, the project, and under it each
/// node stands where its kind may stand: a method only right under a struct
/// or an enum, and nothing but methods there. Only functions and methods
/// are `async`.
pub proof fn lemma_tree_is_well_shaped(
    name: Seq<char>,
    crate_path: Seq<char>,
    files: Seq<SourceFile>,
)
    ensures
        crate_tree(name, crate_path, files).kind == NodeKind::Crate,
        async_fits(crate_tree(name, crate_path, files)),
        well_shaped(crate_tree(name, crate_path, files)),
{
    let dir = source_dir(crate_path);
    let closed = Seq::new(files.len(), |i: int| false);
    let library = match file_index(files, child_path_of(dir, "lib.rs"@)) {
        Some(index) => file_nodes(files, closed, Seq::empty(), index, dir),
        None => Seq::empty(),
    };
    match file_index(files, child_path_of(dir, "lib.rs"@)) {
        Some(index) => {
            lemma_file_nodes_shaped(files, closed, Seq::empty(), index, dir);
        },
        None => {},
    }
    match file_index(files, child_path_of(dir, "main.rs"@)) {
        Some(index) => {
            lemma_file_nodes_shaped(files, closed, library, index, dir);
        },
        None => {},
    }
    assert(row_shaped(crate_nodes(files, crate_path)));
}

} // verus!
