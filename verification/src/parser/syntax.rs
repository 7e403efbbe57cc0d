//! The declarations of a source file as plain values, and the lowering of
//! parsed syntax into them.

use vstd::prelude::*;
use vstd::string::StringExecFns;
use vstd::string::StringSliceAdditionalSpecFns;
use crate::text::{has_mark, is_piece, starts_with_mark, text_of, texts};

verus! {

/// Who may name a declaration.
#[derive(Debug)]
pub enum Access {
    /// `pub`.
    Public,
    /// `pub(..)`: visible inside the scope that the first segment of the
    /// path names (`crate`, `super`, `self` or a module); `None` where the
    /// path has no segment.
    Restricted { scope: Option<String> },
    /// No visibility keyword.
    Private,
}

/// The mathematical value of an [`Access`].
pub enum AccessView {
    Public,
    Restricted { scope: Option<Seq<char>> },
    Private,
}

impl View for Access {
    type V = AccessView;

    open spec fn view(&self) -> AccessView {
        match self {
            Access::Public => AccessView::Public,
            Access::Restricted { scope: Some(s) } => AccessView::Restricted {
                scope: Some(s@),
            },
            Access::Restricted { scope: None } => AccessView::Restricted { scope: None },
            Access::Private => AccessView::Private,
        }
    }
}

impl AccessView {
    /// The visibility in words: `pub`, `pub(scope)`, `restricted` where a
    /// restriction names no scope, or `private`.
    pub open spec fn label(self) -> Seq<char> {
        match self {
            AccessView::Public => "pub"@,
            AccessView::Restricted { scope: Some(scope) } => "pub("@ + scope + ")"@,
            AccessView::Restricted { scope: None } => "restricted"@,
            AccessView::Private => "private"@,
        }
    }
}

impl Access {
    /// The visibility in words: see [`AccessView::label`].
    pub fn label(&self) -> (r: String)
        ensures
            r@ == self@.label(),
    {
        match self {
            Access::Public => "pub".to_owned(),
            Access::Restricted { scope: Some(scope) } => {
                let mut text = "pub(".to_owned();
                text.append(scope.as_str());
                text.append(")");
                text
            },
            Access::Restricted { scope: None } => "restricted".to_owned(),
            Access::Private => "private".to_owned(),
        }
    }
}

impl Clone for Access {
    fn clone(&self) -> (r: Self)
        ensures
            r == *self,
    {
        match self {
            Access::Public => Access::Public,
            Access::Restricted { scope: Some(s) } => Access::Restricted {
                scope: Some(s.clone()),
            },
            Access::Restricted { scope: None } => Access::Restricted { scope: None },
            Access::Private => Access::Private,
        }
    }
}

/// Where a declaration stands in its file: the line it starts on, counted
/// from 1, and the byte offsets of its first byte and of the byte after its
/// last.
#[derive(Clone, Copy, Debug, PartialEq, Eq, Structural)]
pub struct Span {
    pub start_line: usize,
    pub start: usize,
    pub end: usize,
}

impl Span {
    /// Whether the span cuts a piece out of text with the bytes `bytes`:
    /// both offsets lie inside the text, in order, and between characters.
    pub open spec fn fits(self, bytes: Seq<u8>) -> bool {
        is_piece(bytes, self.start as int, self.end as int)
    }

    /// The span moved `by` bytes towards the end of the text. An offset that
    /// would pass `usize::MAX` stops there.
    pub open spec fn moved(self, by: usize) -> Span {
        Span {
            start_line: self.start_line,
            start: if self.start + by <= usize::MAX {
                (self.start + by) as usize
            } else {
                usize::MAX
            },
            end: if self.end + by <= usize::MAX {
                (self.end + by) as usize
            } else {
                usize::MAX
            },
        }
    }

    /// The span moved `by` bytes towards the end of the text: see
    /// [`Span::moved`].
    pub fn shifted(self, by: usize) -> (r: Span)
        ensures
            r == self.moved(by),
    {
        Span {
            start_line: self.start_line,
            start: if self.start <= usize::MAX - by {
                self.start + by
            } else {
                usize::MAX
            },
            end: if self.end <= usize::MAX - by {
                self.end + by
            } else {
                usize::MAX
            },
        }
    }

    /// Tests [`Span::fits`] on `text`.
    pub fn fits_text(&self, text: &str) -> (r: bool)
        ensures
            r == self.fits(text.spec_bytes()),
    {
        let len = text.as_bytes().len();
        self.start <= self.end && self.end <= len && text.is_char_boundary(self.start)
            && text.is_char_boundary(self.end)
    }
}

/// A function of an implementation block.
#[derive(Debug)]
pub struct Method {
    pub name: String,
    pub visibility: Access,
    pub is_async: bool,
}

/// What kind of declaration it is, with what only that kind has.
#[derive(Debug)]
pub enum Shape {
    /// `mod name { .. }` with its content, or `mod name;` with none.
    Module { content: Option<Vec<Declaration>> },
    Struct,
    Enum,
    Function { is_async: bool },
    /// An implementation block: the last segment of the type it is for
    /// (`None` where that type is not a path) and its functions in order.
    Impl { target: Option<String>, methods: Vec<Method> },
    /// Any other item.
    Other,
}

/// One item of a source file. `name` and `visibility` are those of a
/// module, struct, enum or function; for the other shapes the name is empty
/// and the visibility private.
#[derive(Debug)]
pub struct Declaration {
    pub name: String,
    pub visibility: Access,
    pub span: Span,
    pub shape: Shape,
}

/// Why source text yields no declarations.
#[derive(Debug)]
pub enum SyntaxError {
    /// The text is not a well-formed source file; the parser's message.
    Unparsable { message: String },
    /// Modules nest deeper than the text is long.
    TooDeep,
}

impl SyntaxError {
    /// The text that [`SyntaxError::message`] gives.
    pub open spec fn message_of(self) -> Seq<char> {
        match self {
            SyntaxError::Unparsable { message } => message@,
            SyntaxError::TooDeep => "modules nest too deep"@,
        }
    }

    /// The error in words.
    pub fn message(&self) -> (r: String)
        ensures
            r@ == self.message_of(),
    {
        match self {
            SyntaxError::Unparsable { message } => message.clone(),
            SyntaxError::TooDeep => "modules nest too deep".to_owned(),
        }
    }
}

/// The variant of a parsed item, as far as the library tells items apart.
#[derive(Clone, Copy, Debug, PartialEq, Eq, Structural)]
pub enum ItemTag {
    Module,
    Struct,
    Enum,
    Function,
    Impl,
    Other,
}

/// What the head of a module, struct, enum, function or method says.
pub struct HeadView {
    pub name: Seq<char>,
    pub access: AccessView,
    pub is_async: bool,
}

/// What a parsed item holds, as far as the library reads it: its variant;
/// where it stands in the text that was parsed; its head, if it is a
/// module, struct, enum or function; what stands between its braces, if it
/// is a module with braces; and, if it is an implementation block, the
/// segments of the path of its type (`None` where the type is no path) and,
/// for each of its members, the head of the member if it is a function.
pub struct ItemView {
    pub tag: ItemTag,
    pub span: Span,
    pub head: Option<HeadView>,
    pub content: Option<Seq<ItemView>>,
    pub block: Option<(Option<Seq<Seq<char>>>, Seq<Option<HeadView>>)>,
}

/// A visibility as it is read: its variant and, for a restricted one, the
/// segments of its path.
#[derive(Debug)]
pub enum Reach {
    Public,
    Restricted { path: Vec<String> },
    Private,
}

/// The mathematical value of a [`Reach`].
pub enum ReachView {
    Public,
    Restricted { path: Seq<Seq<char>> },
    Private,
}

impl View for Reach {
    type V = ReachView;

    open spec fn view(&self) -> ReachView {
        match self {
            Reach::Public => ReachView::Public,
            Reach::Restricted { path } => ReachView::Restricted { path: texts(path@) },
            Reach::Private => ReachView::Private,
        }
    }
}

/// Who may name a declaration with the visibility `reach`: a restricted
/// one has the first segment of its path for its scope, or none where the
/// path has no segment.
pub open spec fn first_scope(reach: ReachView) -> AccessView {
    match reach {
        ReachView::Public => AccessView::Public,
        ReachView::Restricted { path } => AccessView::Restricted {
            scope: if path.len() > 0 {
                Some(path[0])
            } else {
                None
            },
        },
        ReachView::Private => AccessView::Private,
    }
}

/// The last of the segments of a path, if it has one.
pub open spec fn last_segment(segments: Option<Seq<Seq<char>>>) -> Option<Seq<char>> {
    match segments {
        Some(path) => if path.len() > 0 {
            Some(path.last())
        } else {
            None
        },
        None => None,
    }
}

/// The texts of the segments of a path that was read.
pub open spec fn segment_texts(segments: Option<Vec<String>>) -> Option<Seq<Seq<char>>> {
    match segments {
        Some(path) => Some(texts(path@)),
        None => None,
    }
}

/// `syn::Item`, an item of a parsed file. Nothing inside it is seen
/// here: the functions below read it.
#[verifier::external_type_specification]
#[verifier::external_body]
pub struct ExItem(syn::Item);

/// `syn::ImplItem`, an item of an implementation block.
#[verifier::external_type_specification]
#[verifier::external_body]
pub struct ExImplItem(syn::ImplItem);

/// `syn::Visibility`, the visibility of an item.
#[verifier::external_type_specification]
#[verifier::external_body]
pub struct ExVisibility(syn::Visibility);

/// What `syn::parse_file` makes of `text`: where it takes the text for a
/// source file, what the items of the file hold, in order, and its shebang
/// line.
pub uninterp spec fn parsed(text: Seq<char>) -> Option<(Seq<ItemView>, Option<Seq<char>>)>;

/// What a `syn::Item` holds: its variant, its span as `proc_macro2` has it
/// for the text that was parsed, and the fields that [`ItemView`] lists.
pub uninterp spec fn held(item: syn::Item) -> ItemView;

/// The head of a `syn::ImplItem` that is a function: the name in its
/// signature, its visibility, and whether the signature has the `async`
/// token. `None` for any other member.
pub uninterp spec fn member(item: syn::ImplItem) -> Option<HeadView>;

/// What a `syn::Visibility` says: its variant and, for a restricted one,
/// the segments of its path.
pub uninterp spec fn reach_of(vis: syn::Visibility) -> ReachView;

/// Who may name a declaration with the visibility `vis`.
pub open spec fn access_of(vis: syn::Visibility) -> AccessView {
    first_scope(reach_of(vis))
}

/// What each item of a row holds.
pub open spec fn held_all(items: Seq<syn::Item>) -> Seq<ItemView> {
    Seq::new(items.len(), |i: int| held(items[i]))
}

/// The heads of the members of an implementation block.
pub open spec fn members_of(items: Seq<syn::ImplItem>) -> Seq<Option<HeadView>> {
    Seq::new(items.len(), |i: int| member(items[i]))
}

/// A head as it is read: the name as text, the visibility as the parser
/// has it.
pub open spec fn head_read(read: Option<(String, &syn::Visibility, bool)>) -> Option<HeadView> {
    match read {
        Some((name, vis, is_async)) => Some(
            HeadView { name: name@, access: access_of(*vis), is_async },
        ),
        None => None,
    }
}

/// `syn::parse_file`: the `items` and the `shebang` of the file that `text`
/// holds, or the error's text. Claimed: it succeeds where [`parsed`] has a
/// value for the text, and then the items hold what that value says and
/// the shebang line is the one it says. Nothing is claimed of the error's
/// text.
#[verifier::external_body]
fn parse_items(text: &str) -> (r: Result<(Vec<syn::Item>, Option<String>), String>)
    ensures
        match r {
            Ok((items, shebang)) => parsed(text@) == Some((held_all(items@), text_of(shebang))),
            Err(_) => parsed(text@) is None,
        },
{
    syn::parse_file(text).map(|file| (file.items, file.shebang)).map_err(|e| e.to_string())
}

/// Tells the variants of `syn::Item` apart. Claimed: the result is the tag
/// that [`held`] has for the item.
#[verifier::external_body]
fn item_tag(item: &syn::Item) -> (r: ItemTag)
    ensures
        r == held(*item).tag,
{
    match item {
        syn::Item::Mod(_) => ItemTag::Module,
        syn::Item::Struct(_) => ItemTag::Struct,
        syn::Item::Enum(_) => ItemTag::Enum,
        syn::Item::Fn(_) => ItemTag::Function,
        syn::Item::Impl(_) => ItemTag::Impl,
        _ => ItemTag::Other,
    }
}

/// What the head of a `syn::ItemMod`, `ItemStruct`, `ItemEnum` or `ItemFn`
/// says: the `ident` as text, the `vis` field, and whether a function's
/// signature has its `asyncness` token; `None` for any other item.
/// Claimed: the result is the head that [`held`] has for the item.
#[verifier::external_body]
fn item_head(item: &syn::Item) -> (r: Option<(String, &syn::Visibility, bool)>)
    ensures
        head_read(r) == held(*item).head,
{
    match item {
        syn::Item::Mod(m) => Some((m.ident.to_string(), &m.vis, false)),
        syn::Item::Struct(s) => Some((s.ident.to_string(), &s.vis, false)),
        syn::Item::Enum(e) => Some((e.ident.to_string(), &e.vis, false)),
        syn::Item::Fn(f) => Some((f.sig.ident.to_string(), &f.vis, f.sig.asyncness.is_some())),
        _ => None,
    }
}

/// Tells the variants of `syn::Visibility` apart; for a restricted one,
/// hands out the segments of its `path` as texts. Claimed: the result is
/// what [`reach_of`] has for the visibility.
#[verifier::external_body]
fn plain_visibility(vis: &syn::Visibility) -> (r: Reach)
    ensures
        r@ == reach_of(*vis),
{
    match vis {
        syn::Visibility::Public(_) => Reach::Public,
        syn::Visibility::Restricted(r) => Reach::Restricted {
            path: r.path.segments.iter().map(|s| s.ident.to_string()).collect(),
        },
        syn::Visibility::Inherited => Reach::Private,
    }
}

/// Who may name a declaration with the visibility `reach`: see
/// [`first_scope`].
fn access_from(reach: Reach) -> (r: Access)
    ensures
        r@ == first_scope(reach@),
{
    match reach {
        Reach::Public => Access::Public,
        Reach::Restricted { path } => {
            let mut path = path;
            if path.len() > 0 {
                Access::Restricted { scope: Some(path.remove(0)) }
            } else {
                Access::Restricted { scope: None }
            }
        },
        Reach::Private => Access::Private,
    }
}

/// The last of the segments of a path that was read: see
/// [`last_segment`].
fn pick_last(segments: Option<Vec<String>>) -> (r: Option<String>)
    ensures
        text_of(r) == last_segment(segment_texts(segments)),
{
    match segments {
        Some(path) => {
            let mut path = path;
            path.pop()
        },
        None => None,
    }
}

/// The items in the `content` field of a `syn::ItemMod`; `None` for
/// `mod name;` and for any other item. Claimed: the items hold what the
/// content that [`held`] has for the item says.
#[verifier::external_body]
fn inline_content(item: &syn::Item) -> (r: Option<&Vec<syn::Item>>)
    ensures
        match r {
            Some(items) => held(*item).content == Some(held_all(items@)),
            None => held(*item).content is None,
        },
{
    match item {
        syn::Item::Mod(m) => m.content.as_ref().map(|c| &c.1),
        _ => None,
    }
}

/// The `self_ty` and `items` fields of a `syn::ItemImpl`: the segments of
/// the type's path as texts (`None` where the type is no path), and the
/// items; `None` for any other item. Claimed: the result is the block that
/// [`held`] has for the item.
#[verifier::external_body]
fn impl_parts(item: &syn::Item) -> (r: Option<(Option<Vec<String>>, &Vec<syn::ImplItem>)>)
    ensures
        match r {
            Some((target, members)) => held(*item).block == Some(
                (segment_texts(target), members_of(members@)),
            ),
            None => held(*item).block is None,
        },
{
    match item {
        syn::Item::Impl(i) => match &*i.self_ty {
            syn::Type::Path(p) => {
                Some((Some(p.path.segments.iter().map(|s| s.ident.to_string()).collect()), &i.items))
            },
            _ => Some((None, &i.items)),
        },
        _ => None,
    }
}

/// The name in the signature, the `vis` field and the `asyncness` token of
/// a `syn::ImplItemFn`; `None` for the other items of an implementation
/// block. Claimed: the result is the head that [`member`] has for the item.
#[verifier::external_body]
fn method_signature(item: &syn::ImplItem) -> (r: Option<(String, &syn::Visibility, bool)>)
    ensures
        head_read(r) == member(*item),
{
    match item {
        syn::ImplItem::Fn(f) => Some((f.sig.ident.to_string(), &f.vis, f.sig.asyncness.is_some())),
        _ => None,
    }
}

/// `Spanned::span` of an item, read through `Span::start` and
/// `Span::byte_range` of `proc_macro2`: the line the item starts on and its
/// byte range in the text that was parsed. The offsets count from where the
/// parser began, which is behind a byte order mark and a shebang line.
/// Claimed: the result is the span that [`held`] has for the item.
#[verifier::external_body]
fn item_span(item: &syn::Item) -> (r: Span)
    ensures
        r == held(*item).span,
{
    let span = syn::spanned::Spanned::span(item);
    let bytes = span.byte_range();
    Span { start_line: span.start().line, start: bytes.start, end: bytes.end }
}

/// The head of a method.
pub open spec fn method_view(method: Method) -> HeadView {
    HeadView { name: method.name@, access: method.visibility@, is_async: method.is_async }
}

/// The heads of a row of methods.
pub open spec fn method_views(methods: Seq<Method>) -> Seq<HeadView> {
    Seq::new(methods.len(), |i: int| method_view(methods[i]))
}

/// The heads of the members that are functions, in order.
pub open spec fn functions_of(members: Seq<Option<HeadView>>) -> Seq<HeadView> {
    members.filter_map(|head: Option<HeadView>| head)
}

/// Whether the modules of an item nest no deeper than `depth`: a module
/// with braces takes one level, and what stands between the braces the
/// rest.
pub open spec fn nests_within(view: ItemView, depth: nat) -> bool
    decreases view,
{
    match view.content {
        Some(inner) => view.tag == ItemTag::Module ==> depth > 0 && all_nest_within(
            inner,
            (depth - 1) as nat,
        ),
        None => true,
    }
}

/// Whether the modules of each item of a row nest no deeper than `depth`.
pub open spec fn all_nest_within(views: Seq<ItemView>, depth: nat) -> bool
    decreases views,
{
    forall|i: int| 0 <= i < views.len() ==> nests_within(#[trigger] views[i], depth)
}

/// Whether `decl` is the declaration of an item that holds `view`, its
/// span moved by `shift` bytes.
///
/// Name and visibility are those of the item's head, or empty and private
/// where it has none. The shape goes by the item's variant: a module has
/// the declarations of what stands between its braces, or none for
/// `mod name;`; a function knows whether it is `async`; an implementation
/// block has the last segment of its type's path for its target and the
/// heads of its functions as methods. The span is the item's, moved by
/// `shift`.
pub open spec fn lowered(view: ItemView, shift: usize, decl: Declaration) -> bool
    decreases view,
{
    &&& decl.name@ == match view.head {
        Some(head) => head.name,
        None => Seq::empty(),
    }
    &&& decl.visibility@ == match view.head {
        Some(head) => head.access,
        None => AccessView::Private,
    }
    &&& decl.span == view.span.moved(shift)
    &&& match view.tag {
        ItemTag::Module => match view.content {
            Some(inner) => decl.shape matches Shape::Module { content: Some(content) }
                && lowered_all(inner, shift, content@),
            None => decl.shape matches Shape::Module { content: None },
        },
        ItemTag::Struct => decl.shape is Struct,
        ItemTag::Enum => decl.shape is Enum,
        ItemTag::Function => decl.shape matches Shape::Function { is_async } && is_async == (
        view.head matches Some(head) && head.is_async),
        ItemTag::Impl => match view.block {
            Some((target, members)) => decl.shape matches Shape::Impl { target: name, methods }
                && text_of(name) == last_segment(target) && method_views(methods@)
                == functions_of(members),
            None => decl.shape matches Shape::Impl { target: None, methods } && methods@.len()
                == 0,
        },
        ItemTag::Other => decl.shape is Other,
    }
}

/// Whether `decls` are the declarations of items that hold `views`, one
/// for one and in order, their spans moved by `shift` bytes.
pub open spec fn lowered_all(views: Seq<ItemView>, shift: usize, decls: Seq<Declaration>) -> bool
    decreases views,
{
    views.len() == decls.len() && forall|i: int|
        0 <= i < views.len() ==> lowered(#[trigger] views[i], shift, decls[i])
}

/// The functions of an implementation block as methods, in order: one for
/// each member that is a function, with the name, the visibility and the
/// `async` of its head.
fn lower_methods(items: &Vec<syn::ImplItem>) -> (methods: Vec<Method>)
    ensures
        method_views(methods@) == functions_of(members_of(items@)),
{
    let mut methods: Vec<Method> = Vec::new();
    let ghost keep = |head: Option<HeadView>| head;
    let mut i: usize = 0;
    assert(method_views(methods@) =~= members_of(items@).take(0).filter_map(keep));
    while i < items.len()
        invariant
            i <= items.len(),
            keep == |head: Option<HeadView>| head,
            method_views(methods@) == members_of(items@).take(i as int).filter_map(keep),
        decreases items.len() - i,
    {
        proof {
            assert(members_of(items@).take(i + 1).drop_last() =~= members_of(items@).take(
                i as int,
            ));
            assert(members_of(items@).take(i + 1).last() == member(items[i as int]));
        }
        let ghost before = method_views(methods@);
        match method_signature(&items[i]) {
            Some((name, vis, is_async)) => {
                let method = Method {
                    name,
                    visibility: access_from(plain_visibility(vis)),
                    is_async,
                };
                methods.push(method);
                assert(method_views(methods@) =~= before + seq![method_view(method)]);
            },
            None => {},
        }
        i = i + 1;
    }
    assert(members_of(items@).take(i as int) =~= members_of(items@));
    methods
}

/// How many bytes of a text the parser passed over before it began, given
/// the shebang line that it found: three for a byte order mark, and the
/// bytes of the shebang line. A count that would pass `usize::MAX` stops
/// there.
pub open spec fn shift_for(text: Seq<char>, shebang: Option<Seq<char>>) -> usize {
    let mark = if has_mark(text) {
        3int
    } else {
        0int
    };
    let line = match shebang {
        Some(line) => vstd::utf8::encode_utf8(line).len() as int,
        None => 0int,
    };
    if mark + line <= usize::MAX {
        (mark + line) as usize
    } else {
        usize::MAX
    }
}

/// How many bytes of `text` the parser passed over before it began: see
/// [`shift_for`].
fn leading_bytes(text: &str, shebang: &Option<String>) -> (r: usize)
    ensures
        r == shift_for(text@, text_of(*shebang)),
{
    let mark: usize = if starts_with_mark(text) {
        3
    } else {
        0
    };
    let line: usize = match shebang {
        Some(line) => line.as_str().as_bytes().len(),
        None => 0,
    };
    if line <= usize::MAX - mark {
        mark + line
    } else {
        usize::MAX
    }
}

/// One item as a declaration, its span moved by `shift` bytes so that it
/// counts from the start of the text; `None` where the item's modules nest
/// deeper than `depth`.
fn lower_item(item: &syn::Item, depth: usize, shift: usize) -> (r: Option<Declaration>)
    ensures
        r is Some <==> nests_within(held(*item), depth as nat),
        r matches Some(decl) ==> lowered(held(*item), shift, decl),
    decreases depth, 0nat,
{
    let (name, visibility, is_async) = match item_head(item) {
        Some((name, vis, is_async)) => (name, access_from(plain_visibility(vis)), is_async),
        None => (String::new(), Access::Private, false),
    };
    let span = item_span(item).shifted(shift);
    let shape = match item_tag(item) {
        ItemTag::Module => match inline_content(item) {
            Some(items) => {
                if depth == 0 {
                    return None;
                }
                match lower_items(items, depth - 1, shift) {
                    Some(content) => Shape::Module { content: Some(content) },
                    None => {
                        return None;
                    },
                }
            },
            None => Shape::Module { content: None },
        },
        ItemTag::Struct => Shape::Struct,
        ItemTag::Enum => Shape::Enum,
        ItemTag::Function => Shape::Function { is_async },
        ItemTag::Impl => match impl_parts(item) {
            Some((target, items)) => Shape::Impl {
                target: pick_last(target),
                methods: lower_methods(items),
            },
            None => Shape::Impl { target: None, methods: Vec::new() },
        },
        ItemTag::Other => Shape::Other,
    };
    Some(Declaration { name, visibility, span, shape })
}

/// The items as declarations, one for one and in order, their spans moved
/// by `shift` bytes; `None` where the modules of one of them nest deeper
/// than `depth`.
fn lower_items(items: &Vec<syn::Item>, depth: usize, shift: usize) -> (r: Option<
    Vec<Declaration>,
>)
    ensures
        r is Some <==> all_nest_within(held_all(items@), depth as nat),
        r matches Some(decls) ==> lowered_all(held_all(items@), shift, decls@),
    decreases depth, 1nat,
{
    let mut decls: Vec<Declaration> = Vec::new();
    let mut i: usize = 0;
    while i < items.len()
        invariant
            i <= items.len(),
            decls.len() == i,
            forall|k: int|
                0 <= k < i ==> nests_within(#[trigger] held_all(items@)[k], depth as nat),
            forall|k: int|
                0 <= k < i ==> lowered(#[trigger] held_all(items@)[k], shift, decls[k]),
        decreases items.len() - i,
    {
        assert(held_all(items@)[i as int] == held(items[i as int]));
        match lower_item(&items[i], depth, shift) {
            Some(decl) => {
                decls.push(decl);
            },
            None => {
                return None;
            },
        }
        i = i + 1;
    }
    Some(decls)
}

/// Whether every span in `decls` cuts a piece out of text with the bytes
/// `bytes`.
pub open spec fn spans_fit(decls: Seq<Declaration>, bytes: Seq<u8>) -> bool {
    forall|i: int| 0 <= i < decls.len() ==> (#[trigger] decls[i]).span.fits(bytes)
}

/// The index of the first declaration whose span does not fit `text`.
pub fn first_misfit(decls: &Vec<Declaration>, text: &str) -> (r: Option<usize>)
    ensures
        match r {
            Some(i) => i < decls.len() && !decls[i as int].span.fits(text.spec_bytes())
                && spans_fit(decls@.take(i as int), text.spec_bytes()),
            None => spans_fit(decls@, text.spec_bytes()),
        },
{
    let mut i: usize = 0;
    while i < decls.len()
        invariant
            i <= decls.len(),
            forall|j: int| 0 <= j < i ==> (#[trigger] decls[j]).span.fits(text.spec_bytes()),
        decreases decls.len() - i,
    {
        if !decls[i].span.fits_text(text) {
            return Some(i);
        }
        i = i + 1;
    }
    None
}

/// Parses `text` as a source file and hands out its top-level declarations
/// in order, nested modules with their content. Spans count from the start
/// of `text`, byte order mark and shebang line included.
///
/// Fails where the parser does not take the text for a source file, and
/// where modules nest deeper than the text has bytes. Else the declarations
/// are those of the items that the parser found: see [`lowered`]. What the
/// parser finds in a text is named by [`parsed`], not spelled out.
pub fn parse_declarations(text: &str) -> (r: Result<Vec<Declaration>, SyntaxError>)
    ensures
        match parsed(text@) {
            None => r matches Err(SyntaxError::Unparsable { message }),
            Some((items, shebang)) => if all_nest_within(items, text.len() as nat) {
                r matches Ok(decls) && lowered_all(items, shift_for(text@, shebang), decls@)
            } else {
                r matches Err(SyntaxError::TooDeep)
            },
        },
{
    match parse_items(text) {
        Err(message) => Err(SyntaxError::Unparsable { message }),
        Ok((items, shebang)) => {
            let shift = leading_bytes(text, &shebang);
            match lower_items(&items, text.len(), shift) {
                None => Err(SyntaxError::TooDeep),
                Some(decls) => Ok(decls),
            }
        },
    }
}

} // verus!
