use vstd::prelude::*;

verus! {

/// A generic argument of a path segment, as `syn::GenericArgument`: a type
/// (its source text) or anything else.
#[derive(Debug, Clone, PartialEq, Eq)]
pub enum GenericArg {
    Type(String),
    Other,
}

/// The arguments of a path segment, as `syn::PathArguments`.
#[derive(Debug, Clone, PartialEq, Eq)]
pub enum PathArgs {
    Bare,
    AngleBracketed(Vec<GenericArg>),
    Parenthesized,
}

/// A segment of a path, as `syn::PathSegment`.
#[derive(Debug, Clone, PartialEq, Eq)]
pub struct Segment {
    pub ident: String,
    pub arguments: PathArgs,
}

/// A type as the derives read it (`syn::Type`): a path with its segments,
/// the unit type `()`, or another kind of type.
#[derive(Debug, Clone, PartialEq, Eq)]
pub enum Ty {
    Path(Vec<Segment>),
    Unit,
    Other,
}

/// The return type of a function (`syn::ReturnType`).
#[derive(Debug, Clone, PartialEq, Eq)]
pub enum ReturnTy {
    Default,
    Type(Ty),
}

/// An attribute (`syn::Attribute`): the path it is named by, the paths
/// of its nested meta items, as in `#[repr(C)]`, and whether its arguments
/// read as such a list (`#[repr(align(8))]` and a bare `#[repr]` do not).
#[derive(Debug, Clone, PartialEq, Eq)]
pub struct Attr {
    pub path: String,
    pub nested: Vec<String>,
    pub plain_list: bool,
}

/// A token of an attribute's arguments, as the listener attribute reads
/// them: an identifier, a string literal (its value), `=`, `::`, `,`, or any
/// other token.
#[derive(Debug, Clone, PartialEq, Eq)]
pub enum Token {
    Ident(String),
    Lit(String),
    Eq,
    PathSep,
    Comma,
    Other,
}

/// An attribute of a field: its path and the tokens of its arguments, as
/// in `#[listener(callback = new_output)]`.
#[derive(Debug, Clone, PartialEq, Eq)]
pub struct FieldAttr {
    pub path: String,
    pub args: Vec<Token>,
}

/// A field of a struct (`syn::Field`): its name (none in a tuple struct),
/// its type and its attributes.
#[derive(Debug, Clone, PartialEq, Eq)]
pub struct Field {
    pub ident: Option<String>,
    pub ty: Ty,
    pub attrs: Vec<FieldAttr>,
}

/// The fields of a struct (`syn::Fields`).
#[derive(Debug, Clone, PartialEq, Eq)]
pub enum Fields {
    Named(Vec<Field>),
    Unnamed(Vec<Field>),
    Unit,
}

/// What a derive is applied to (`syn::Data`).
#[derive(Debug, Clone, PartialEq, Eq)]
pub enum DeriveData {
    Struct(Fields),
    Enum,
    Union,
}

/// An argument of a function (`syn::FnArg`): the receiver, or a typed
/// argument whose pattern is an identifier (`Some`) or another pattern, with
/// the source text of its type.
#[derive(Debug, Clone, PartialEq, Eq)]
pub enum FnArg {
    Receiver,
    Typed(Option<String>, String),
}

/// An item that an attribute is applied to, as `initialization` reads it:
/// whether it is a function, and for a function its visibility (as source
/// text), name, arguments and return type.
#[derive(Debug, Clone, PartialEq, Eq)]
pub struct ItemModel {
    pub is_fn: bool,
    pub vis: String,
    pub name: String,
    pub args: Vec<FnArg>,
    pub ret: ReturnTy,
}

/// The fields of a struct, in declaration order.
pub open spec fn field_seq(fields: Fields) -> Seq<Field> {
    match fields {
        Fields::Named(v) => v@,
        Fields::Unnamed(v) => v@,
        Fields::Unit => Seq::empty(),
    }
}

/// The texts of some strings.
pub open spec fn texts(v: Seq<String>) -> Seq<Seq<char>> {
    v.map_values(|s: String| s@)
}

/// An error of a derive, with its message (`syn::Error`).
#[derive(Debug, Clone, PartialEq, Eq)]
pub struct MacroError {
    pub message: String,
}

impl MacroError {
    pub open spec fn says(self, msg: Seq<char>) -> bool {
        self.message@ == msg
    }
}

/// A string made of a literal.
pub fn text(lit: &str) -> (s: String)
    ensures
        s@ == lit@,
{
    String::from_str(lit)
}

/// Whether a string equals a literal.
pub fn same_text(s: &String, lit: &str) -> (b: bool)
    ensures
        b == (s@ == lit@),
{
    let l = String::from_str(lit);
    *s == l
}

/// The text `x` occurs in the text `t`.
pub open spec fn has_part(t: Seq<char>, x: Seq<char>) -> bool {
    exists|pre: Seq<char>, post: Seq<char>| #[trigger] (pre + x + post) == t
}

/// A text occurs in any text made of it with something before and after.
pub proof fn lemma_part(pre: Seq<char>, x: Seq<char>, post: Seq<char>)
    ensures
        has_part(pre + x + post, x),
{
    assert((pre + x + post) == pre + x + post);
}

/// The text `t` begins with `x`.
pub open spec fn starts_with(t: Seq<char>, x: Seq<char>) -> bool {
    exists|post: Seq<char>| #[trigger] (x + post) == t
}

/// The text `t` ends with `x`.
pub open spec fn ends_with(t: Seq<char>, x: Seq<char>) -> bool {
    exists|pre: Seq<char>| #[trigger] (pre + x) == t
}

pub proof fn lemma_starts(x: Seq<char>, post: Seq<char>)
    ensures
        starts_with(x + post, x),
{
    assert((x + post) == x + post);
}

pub proof fn lemma_ends(pre: Seq<char>, x: Seq<char>)
    ensures
        ends_with(pre + x, x),
{
    assert((pre + x) == pre + x);
}

/// A text that occurs in `t` occurs in anything made of `t` with something
/// before and after.
pub proof fn lemma_part_within(t: Seq<char>, x: Seq<char>, before: Seq<char>, after: Seq<char>)
    requires
        has_part(t, x),
    ensures
        has_part(before + t + after, x),
{
    let (pre, post) = choose|pre: Seq<char>, post: Seq<char>| #[trigger] (pre + x + post) == t;
    assert(before + t + after =~= (before + pre) + x + (post + after));
    lemma_part(before + pre, x, post + after);
}

/// What occurs in a part of `t` occurs in `t`.
pub proof fn lemma_part_trans(t: Seq<char>, y: Seq<char>, x: Seq<char>)
    requires
        has_part(t, y),
        has_part(y, x),
    ensures
        has_part(t, x),
{
    let (p1, q1) = choose|pre: Seq<char>, post: Seq<char>| #[trigger] (pre + x + post) == y;
    lemma_part_within(y, x, Seq::empty(), Seq::empty());
    let (p2, q2) = choose|pre: Seq<char>, post: Seq<char>| #[trigger] (pre + y + post) == t;
    assert(t =~= (p2 + p1) + x + (q1 + q2));
    lemma_part(p2 + p1, x, q1 + q2);
}

} // verus!
