use vstd::prelude::*;

use super::syntax::{
    ends_with, has_part, lemma_ends, lemma_part, lemma_part_trans, lemma_part_within, lemma_starts,
    starts_with, field_seq, same_text, texts, DeriveData, Field, FieldAttr, FnArg, GenericArg, ItemModel,
    MacroError, PathArgs, ReturnTy, Segment, Token, Ty,
};

verus! {

/// What `heck::ToSnakeCase::to_snake_case` makes of a string.
pub uninterp spec fn snake_case(s: Seq<char>) -> Seq<char>;

/// `heck::ToSnakeCase::to_snake_case`: the string in snake_case.
#[verifier::external_body]
fn to_snake_case(s: &str) -> (r: String)
    ensures
        r@ == snake_case(s@),
{
    heck::ToSnakeCase::to_snake_case(s)
}

/// The name of a listener's trampoline, from the struct's name in
/// snake_case and the field's name: `__{struct}_{field}_trampoline`.
pub fn trampoline_ident(snake_struct: &str, field_name: &str) -> (r: String)
    ensures
        r@ == "__"@ + snake_struct@ + "_"@ + field_name@ + "_trampoline"@,
{
    let mut r = String::from_str("__");
    r.append(snake_struct);
    r.append("_");
    r.append(field_name);
    r.append("_trampoline");
    r
}

/// The name of the C callback of a listener field: `__{struct}_{field}_trampoline`,
/// with the struct's name in snake_case.
pub fn trampoline_name(field_name: &str, struct_name: &str) -> (r: String)
    ensures
        r@ == "__"@ + snake_case(struct_name@) + "_"@ + field_name@ + "_trampoline"@,
{
    let snake = to_snake_case(struct_name);
    trampoline_ident(snake.as_str(), field_name)
}

/// The name of the in-place initialiser of a listener field: `__init_{field}`.
pub fn init_name(field_name: &str) -> (r: String)
    ensures
        r@ == "__init_"@ + field_name@,
{
    let mut r = String::from_str("__init_");
    r.append(field_name);
    r
}

/// The argument type of a listener field's type: `Listener` gives none
/// (the unit type), `Listener<T>` gives `T`; anything else is refused with
/// its message.
pub open spec fn listener_arg_of(ty: Ty) -> Result<Option<Seq<char>>, Seq<char>> {
    match ty {
        Ty::Path(segs) => if segs.len() == 0 {
            Err("invalid type"@)
        } else {
            let last = segs@[segs.len() - 1];
            if last.ident@ != "Listener"@ {
                Err("expected Listener"@)
            } else {
                match last.arguments {
                    PathArgs::Bare => Ok(None),
                    PathArgs::AngleBracketed(args) => if args.len() > 0 && args@[0] is Type {
                        Ok(Some(args@[0]->Type_0@))
                    } else {
                        Err("expected Listener<T>"@)
                    },
                    PathArgs::Parenthesized => Err("unsupported Listener type"@),
                }
            }
        },
        _ => Err("expected Listener<T>"@),
    }
}

/// `r` is what [`listener_arg_of`] gives for `ty`.
pub open spec fn listener_arg_spec(ty: Ty, r: Result<Option<String>, MacroError>) -> bool {
    match r {
        Ok(Some(t)) => listener_arg_of(ty) == Ok::<Option<Seq<char>>, Seq<char>>(Some(t@)),
        Ok(None) => listener_arg_of(ty) == Ok::<Option<Seq<char>>, Seq<char>>(None),
        Err(e) => listener_arg_of(ty) == Err::<Option<Seq<char>>, Seq<char>>(e.message@),
    }
}

pub(crate) fn error(msg: &str) -> (e: MacroError)
    ensures
        e.message@ == msg@,
{
    MacroError { message: String::from_str(msg) }
}

/// The argument type of a listener field (see [`listener_arg_spec`]).
pub fn listener_arg_type(ty: &Ty) -> (r: Result<Option<String>, MacroError>)
    ensures
        listener_arg_spec(*ty, r),
{
    let segs = match ty {
        Ty::Path(segs) => segs,
        _ => {
            return Err(error("expected Listener<T>"));
        },
    };
    if segs.len() == 0 {
        return Err(error("invalid type"));
    }
    let last: &Segment = &segs[segs.len() - 1];
    if !same_text(&last.ident, "Listener") {
        return Err(error("expected Listener"));
    }
    match &last.arguments {
        PathArgs::Bare => Ok(None),
        PathArgs::AngleBracketed(args) => {
            if args.len() > 0 {
                match &args[0] {
                    GenericArg::Type(t) => Ok(Some(t.clone())),
                    GenericArg::Other => Err(error("expected Listener<T>")),
                }
            } else {
                Err(error("expected Listener<T>"))
            }
        },
        PathArgs::Parenthesized => Err(error("unsupported Listener type")),
    }
}

/// What an initialiser returns, which decides what `initialize` returns.
#[derive(Debug, Clone, Copy, PartialEq, Eq)]
pub enum ReturnKind {
    Result,
    Option,
    Plain,
    Unknown,
}

/// A generic argument is the unit type `()`.
pub open spec fn is_unit_arg(g: GenericArg) -> bool {
    match g {
        GenericArg::Type(t) => t@ == "()"@,
        GenericArg::Other => false,
    }
}

/// The generic arguments of the last segment of a path return type.
pub open spec fn last_generics(ret: ReturnTy) -> Seq<GenericArg> {
    match ret {
        ReturnTy::Type(Ty::Path(segs)) => match segs@[segs.len() - 1].arguments {
            PathArgs::AngleBracketed(args) => args@,
            _ => Seq::empty(),
        },
        _ => Seq::empty(),
    }
}

/// The kind of an initialiser's return type, as its error message asks:
/// none or `()` is plain, `Result<(), E>` (by the last segment of a path)
/// is a result, `Option<()>` an option; anything else is unknown.
pub open spec fn return_kind(ret: ReturnTy) -> ReturnKind {
    match ret {
        ReturnTy::Default => ReturnKind::Plain,
        ReturnTy::Type(Ty::Unit) => ReturnKind::Plain,
        ReturnTy::Type(Ty::Path(segs)) => {
            let id = segs@[segs.len() - 1].ident@;
            let g = last_generics(ret);
            if id == "Result"@ && g.len() == 2 && is_unit_arg(g[0]) && g[1] is Type {
                ReturnKind::Result
            } else if id == "Option"@ && g.len() == 1 && is_unit_arg(g[0]) {
                ReturnKind::Option
            } else {
                ReturnKind::Unknown
            }
        },
        ReturnTy::Type(Ty::Other) => ReturnKind::Unknown,
    }
}

fn unit_arg(g: &GenericArg) -> (b: bool)
    ensures
        b == is_unit_arg(*g),
{
    match g {
        GenericArg::Type(t) => same_text(t, "()"),
        GenericArg::Other => false,
    }
}

/// The kind of an initialiser's return type (a path type has at least one
/// segment; the attribute reads the last).
pub fn classify_return(ret: &ReturnTy) -> (k: ReturnKind)
    requires
        ret matches ReturnTy::Type(Ty::Path(segs)) ==> segs.len() > 0,
    ensures
        k == return_kind(*ret),
{
    match ret {
        ReturnTy::Default => ReturnKind::Plain,
        ReturnTy::Type(Ty::Unit) => ReturnKind::Plain,
        ReturnTy::Type(Ty::Path(segs)) => {
            let last = &segs[segs.len() - 1];
            let empty: Vec<GenericArg> = Vec::new();
            let g: &Vec<GenericArg> = match &last.arguments {
                PathArgs::AngleBracketed(a) => a,
                _ => &empty,
            };
            assert(g@ == last_generics(*ret));
            if same_text(&last.ident, "Result") && g.len() == 2 && unit_arg(&g[0]) && match &g[1] {
                GenericArg::Type(_) => true,
                GenericArg::Other => false,
            } {
                ReturnKind::Result
            } else if same_text(&last.ident, "Option") && g.len() == 1 && unit_arg(&g[0]) {
                ReturnKind::Option
            } else {
                ReturnKind::Unknown
            }
        },
        ReturnTy::Type(Ty::Other) => ReturnKind::Unknown,
    }
}

/// The error of an initialiser whose return type is of no known kind.
pub fn check_return(ret: &ReturnTy) -> (r: Result<ReturnKind, MacroError>)
    requires
        ret matches ReturnTy::Type(Ty::Path(segs)) ==> segs.len() > 0,
    ensures
        match r {
            Ok(k) => k == return_kind(*ret) && k != ReturnKind::Unknown,
            Err(e) => return_kind(*ret) == ReturnKind::Unknown && e.says(
                "must either be Result<(), T>, Option<()> or ()"@,
            ),
        },
{
    let k = classify_return(ret);
    match k {
        ReturnKind::Unknown => Err(error("must either be Result<(), T>, Option<()> or ()")),
        _ => Ok(k),
    }
}

/// What `initialize` returns: the initialiser's `Result` error type, an
/// `Option`, or the pinned value itself.
#[derive(Debug, Clone, PartialEq, Eq)]
pub enum InitReturn {
    Result(String),
    Option,
    Plain,
}

/// An argument that `initialize` takes and hands on: its name and the
/// source text of its type.
#[derive(Debug, Clone, PartialEq, Eq)]
pub struct TypedArg {
    pub name: String,
    pub ty: String,
}

/// What the `initialization` attribute generates besides the function:
/// an `initialize` with the function's visibility that sets up the
/// callbacks, calls the function by name with the arguments after `self`,
/// and returns according to `ret`, keeping the call's result when it
/// returns a `Result` or an `Option`; `source` is its source text.
#[derive(Debug, Clone, PartialEq, Eq)]
pub struct InitializerPlan {
    pub vis: String,
    pub call: String,
    pub args: Vec<TypedArg>,
    pub ret: InitReturn,
    pub stores_result: bool,
    pub source: String,
}

/// The arguments after the receiver are typed and named by an identifier
/// (the attribute panics on any other).
pub open spec fn args_named(args: Seq<FnArg>) -> bool {
    forall|i: int| 1 <= i < args.len() ==> (#[trigger] args[i] matches FnArg::Typed(Some(_), _))
}

/// `out` holds the arguments of `args` after the receiver, by name and type.
pub open spec fn args_taken(out: Seq<TypedArg>, args: Seq<FnArg>) -> bool {
    &&& out.len() == (if args.len() == 0 { 0 } else { args.len() - 1 })
    &&& forall|j: int|
        0 <= j < out.len() ==> (#[trigger] out[j]).name@ == args[j + 1]->Typed_0->Some_0@
            && out[j].ty@ == args[j + 1]->Typed_1@
}

/// `r` is what `initialize` returns for an initialiser returning `ret`.
pub open spec fn init_return_for(r: InitReturn, ret: ReturnTy) -> bool {
    match r {
        InitReturn::Result(t) => return_kind(ret) == ReturnKind::Result && t@ == last_generics(
            ret,
        )[1]->Type_0@,
        InitReturn::Option => return_kind(ret) == ReturnKind::Option,
        InitReturn::Plain => return_kind(ret) == ReturnKind::Plain,
    }
}

pub open spec fn vis_prefix(vis: Seq<char>) -> Seq<char> {
    if vis == ""@ {
        ""@
    } else {
        vis + " "@
    }
}

/// The parameters of `initialize` after `uninit`: `, name: Type` each.
pub open spec fn params_text(args: Seq<TypedArg>) -> Seq<char>
    decreases args.len(),
{
    if args.len() == 0 {
        ""@
    } else {
        params_text(args.drop_last()) + ", "@ + args.last().name@ + ": "@ + args.last().ty@
    }
}

/// The arguments of the call of the initialiser: the names, separated by `, `.
pub open spec fn call_args_text(args: Seq<TypedArg>) -> Seq<char>
    decreases args.len(),
{
    if args.len() == 0 {
        ""@
    } else if args.len() == 1 {
        args[0].name@
    } else {
        call_args_text(args.drop_last()) + ", "@ + args.last().name@
    }
}

pub open spec fn ret_type_text(ret: InitReturn) -> Seq<char> {
    match ret {
        InitReturn::Result(e) => "Result<::std::pin::Pin<&'__lifetime mut Self>, "@ + e@ + ">"@,
        InitReturn::Option => "Option<::std::pin::Pin<&'__lifetime mut Self>>"@,
        InitReturn::Plain => "::std::pin::Pin<&'__lifetime mut Self>"@,
    }
}

pub open spec fn store_text(stores: bool) -> Seq<char> {
    if stores {
        "let result = "@
    } else {
        ""@
    }
}

pub open spec fn handler_text(stores: bool) -> Seq<char> {
    if stores {
        "result.map(|_| this)"@
    } else {
        "this"@
    }
}

/// The source of the generated `initialize`: it takes the uninitialised
/// place and the initialiser's arguments, sets up the callbacks, then calls
/// the initialiser, and returns the pinned value (mapped over the kept
/// result when there is one).
pub open spec fn initialize_text(vis: Seq<char>, name: Seq<char>, args: Seq<TypedArg>, ret: InitReturn, stores: bool) -> Seq<char> {
    ("/// In place initialization\n"@ + vis_prefix(vis) + "fn initialize<'__lifetime>(mut uninit: ::std::pin::Pin<&'__lifetime mut ::std::mem::MaybeUninit<Self>>"@ + params_text(args)) + (") -> "@ + ret_type_text(ret) + " {\n    let mut this = unsafe { uninit.map_unchecked_mut(|v| v.assume_init_mut()) };\n"@) + ("    this.as_mut().__initialize_callbacks();\n    "@ + store_text(stores) + "this.as_mut()."@ + name + "("@ + call_args_text(args) + ");\n"@) + ("    "@ + handler_text(stores) + "\n}\n"@)
}

fn params_source(args: &Vec<TypedArg>) -> (r: String)
    ensures
        r@ == params_text(args@),
{
    let mut r = String::from_str("");
    let mut i: usize = 0;
    while i < args.len()
        invariant
            0 <= i <= args@.len(),
            r@ == params_text(args@.subrange(0, i as int)),
        decreases args@.len() - i,
    {
        r.append(", ");
        r.append(args[i].name.as_str());
        r.append(": ");
        r.append(args[i].ty.as_str());
        proof {
            assert(args@.subrange(0, i + 1).drop_last() =~= args@.subrange(0, i as int));
        }
        i = i + 1;
    }
    proof {
        assert(args@.subrange(0, args@.len() as int) =~= args@);
    }
    r
}

fn call_args_source(args: &Vec<TypedArg>) -> (r: String)
    ensures
        r@ == call_args_text(args@),
{
    if args.len() == 0 {
        return String::from_str("");
    }
    let mut r = String::from_str(args[0].name.as_str());
    proof {
        assert(args@.subrange(0, 1).len() == 1);
    }
    let mut i: usize = 1;
    while i < args.len()
        invariant
            1 <= i <= args@.len(),
            r@ == call_args_text(args@.subrange(0, i as int)),
        decreases args@.len() - i,
    {
        r.append(", ");
        r.append(args[i].name.as_str());
        proof {
            assert(args@.subrange(0, i + 1).drop_last() =~= args@.subrange(0, i as int));
        }
        i = i + 1;
    }
    proof {
        assert(args@.subrange(0, args@.len() as int) =~= args@);
    }
    r
}

fn ret_type_source(ret: &InitReturn) -> (r: String)
    ensures
        r@ == ret_type_text(*ret),
{
    match ret {
        InitReturn::Result(e) => {
            let mut r = String::from_str("Result<::std::pin::Pin<&'__lifetime mut Self>, ");
            r.append(e.as_str());
            r.append(">");
            r
        },
        InitReturn::Option => String::from_str("Option<::std::pin::Pin<&'__lifetime mut Self>>"),
        InitReturn::Plain => String::from_str("::std::pin::Pin<&'__lifetime mut Self>"),
    }
}

/// The source of the generated `initialize` (see [`initialize_text`]).
fn initialize_source(vis: &String, name: &String, args: &Vec<TypedArg>, ret: &InitReturn, stores: bool) -> (r: String)
    ensures
        r@ == initialize_text(vis@, name@, args@, *ret, stores),
{
    let vp = if same_text(vis, "") {
        String::from_str("")
    } else {
        let mut v = String::from_str(vis.as_str());
        v.append(" ");
        v
    };
    let params = params_source(args);
    let rt = ret_type_source(ret);
    let store = String::from_str(if stores { "let result = " } else { "" });
    let call = call_args_source(args);
    let handler = String::from_str(if stores { "result.map(|_| this)" } else { "this" });
    let mut part1 = String::from_str("/// In place initialization\n");
    part1.append(vp.as_str());
    part1.append("fn initialize<'__lifetime>(mut uninit: ::std::pin::Pin<&'__lifetime mut ::std::mem::MaybeUninit<Self>>");
    part1.append(params.as_str());
    let mut r = String::from_str(part1.as_str());
    let mut part2 = String::from_str(") -> ");
    part2.append(rt.as_str());
    part2.append(" {\n    let mut this = unsafe { uninit.map_unchecked_mut(|v| v.assume_init_mut()) };\n");
    r.append(part2.as_str());
    let mut part3 = String::from_str("    this.as_mut().__initialize_callbacks();\n    ");
    part3.append(store.as_str());
    part3.append("this.as_mut().");
    part3.append(name.as_str());
    part3.append("(");
    part3.append(call.as_str());
    part3.append(");\n");
    r.append(part3.as_str());
    let mut part4 = String::from_str("    ");
    part4.append(handler.as_str());
    part4.append("\n}\n");
    r.append(part4.as_str());
    r
}

/// What the generated `initialize` is, for every visibility, initialiser
/// name, arguments, return kind and kept result: it begins with its doc and
/// signature (the visibility, then the uninitialised place and the
/// initialiser's arguments with their types); it returns the pinned value
/// itself, an `Option` of it or a `Result` of it with the initialiser's
/// error type; it sets up the callbacks and then calls the initialiser with
/// the arguments, keeping the result when there is one; and it ends by
/// returning the pinned value, mapped over the kept result.
pub proof fn law_initialize_generates(vis: Seq<char>, name: Seq<char>, args: Seq<TypedArg>, ret: InitReturn, stores: bool)
    ensures
        vis == ""@ ==> starts_with(initialize_text(vis, name, args, ret, stores), "/// In place initialization\n"@ + ""@ + "fn initialize<'__lifetime>(mut uninit: ::std::pin::Pin<&'__lifetime mut ::std::mem::MaybeUninit<Self>>"@ + params_text(args)),
        vis != ""@ ==> starts_with(initialize_text(vis, name, args, ret, stores), "/// In place initialization\n"@ + (vis + " "@) + "fn initialize<'__lifetime>(mut uninit: ::std::pin::Pin<&'__lifetime mut ::std::mem::MaybeUninit<Self>>"@ + params_text(args)),
        ret is Plain ==> has_part(initialize_text(vis, name, args, ret, stores), ") -> "@ + "::std::pin::Pin<&'__lifetime mut Self>"@ + " {\n    let mut this = unsafe { uninit.map_unchecked_mut(|v| v.assume_init_mut()) };\n"@),
        ret is Option ==> has_part(initialize_text(vis, name, args, ret, stores), ") -> "@ + "Option<::std::pin::Pin<&'__lifetime mut Self>>"@ + " {\n    let mut this = unsafe { uninit.map_unchecked_mut(|v| v.assume_init_mut()) };\n"@),
        ret matches InitReturn::Result(e) ==> has_part(
            initialize_text(vis, name, args, ret, stores),
            ") -> "@ + ("Result<::std::pin::Pin<&'__lifetime mut Self>, "@ + e@ + ">"@) + " {\n    let mut this = unsafe { uninit.map_unchecked_mut(|v| v.assume_init_mut()) };\n"@,
        ),
        stores ==> has_part(initialize_text(vis, name, args, ret, stores), "    this.as_mut().__initialize_callbacks();\n    "@ + "let result = "@ + "this.as_mut()."@ + name + "("@ + call_args_text(args) + ");\n"@),
        !stores ==> has_part(initialize_text(vis, name, args, ret, stores), "    this.as_mut().__initialize_callbacks();\n    "@ + ""@ + "this.as_mut()."@ + name + "("@ + call_args_text(args) + ");\n"@),
        stores ==> ends_with(initialize_text(vis, name, args, ret, stores), "    "@ + "result.map(|_| this)"@ + "\n}\n"@),
        !stores ==> ends_with(initialize_text(vis, name, args, ret, stores), "    "@ + "this"@ + "\n}\n"@),
{
    {
        let q = ("/// In place initialization\n"@ + vis_prefix(vis) + "fn initialize<'__lifetime>(mut uninit: ::std::pin::Pin<&'__lifetime mut ::std::mem::MaybeUninit<Self>>"@ + params_text(args));
        let post0 = (") -> "@ + ret_type_text(ret) + " {\n    let mut this = unsafe { uninit.map_unchecked_mut(|v| v.assume_init_mut()) };\n"@);
        let t1 = ("    this.as_mut().__initialize_callbacks();\n    "@ + store_text(stores) + "this.as_mut()."@ + name + "("@ + call_args_text(args) + ");\n"@);
        vstd::seq_lib::lemma_concat_associative(q, post0, t1);
        let post1 = post0 + t1;
        let t2 = ("    "@ + handler_text(stores) + "\n}\n"@);
        vstd::seq_lib::lemma_concat_associative(q, post1, t2);
        let post2 = post1 + t2;
        assert(initialize_text(vis, name, args, ret, stores) == q + post2);
        lemma_starts(q, post2);
    }
    {
        let pre = ("/// In place initialization\n"@ + vis_prefix(vis) + "fn initialize<'__lifetime>(mut uninit: ::std::pin::Pin<&'__lifetime mut ::std::mem::MaybeUninit<Self>>"@ + params_text(args));
        let x = (") -> "@ + ret_type_text(ret) + " {\n    let mut this = unsafe { uninit.map_unchecked_mut(|v| v.assume_init_mut()) };\n"@);
        let q = pre + x;
        let post0 = ("    this.as_mut().__initialize_callbacks();\n    "@ + store_text(stores) + "this.as_mut()."@ + name + "("@ + call_args_text(args) + ");\n"@);
        let t1 = ("    "@ + handler_text(stores) + "\n}\n"@);
        vstd::seq_lib::lemma_concat_associative(q, post0, t1);
        let post1 = post0 + t1;
        assert(initialize_text(vis, name, args, ret, stores) == pre + x + post1);
        lemma_part(pre, x, post1);
    }
    {
        let pre = ("/// In place initialization\n"@ + vis_prefix(vis) + "fn initialize<'__lifetime>(mut uninit: ::std::pin::Pin<&'__lifetime mut ::std::mem::MaybeUninit<Self>>"@ + params_text(args)) + (") -> "@ + ret_type_text(ret) + " {\n    let mut this = unsafe { uninit.map_unchecked_mut(|v| v.assume_init_mut()) };\n"@);
        let x = ("    this.as_mut().__initialize_callbacks();\n    "@ + store_text(stores) + "this.as_mut()."@ + name + "("@ + call_args_text(args) + ");\n"@);
        let q = pre + x;
        let post0 = ("    "@ + handler_text(stores) + "\n}\n"@);
        assert(initialize_text(vis, name, args, ret, stores) == pre + x + post0);
        lemma_part(pre, x, post0);
    }
    {
        lemma_ends(("/// In place initialization\n"@ + vis_prefix(vis) + "fn initialize<'__lifetime>(mut uninit: ::std::pin::Pin<&'__lifetime mut ::std::mem::MaybeUninit<Self>>"@ + params_text(args)) + (") -> "@ + ret_type_text(ret) + " {\n    let mut this = unsafe { uninit.map_unchecked_mut(|v| v.assume_init_mut()) };\n"@) + ("    this.as_mut().__initialize_callbacks();\n    "@ + store_text(stores) + "this.as_mut()."@ + name + "("@ + call_args_text(args) + ");\n"@), ("    "@ + handler_text(stores) + "\n}\n"@));
    }
}

/// The parameters of `initialize` after the place: none for no arguments,
/// and one more `, name: Type` for each further argument.
pub proof fn law_params_text(args: Seq<TypedArg>, a: TypedArg)
    ensures
        params_text(Seq::empty()) == ""@,
        params_text(args.push(a)) == params_text(args) + ", "@ + a.name@ + ": "@ + a.ty@,
{
    assert(args.push(a).drop_last() =~= args);
}

/// The arguments of the initialiser's call: none, one name, and one more
/// `, name` for each further argument.
pub proof fn law_call_args_text(args: Seq<TypedArg>, a: TypedArg)
    ensures
        call_args_text(Seq::empty()) == ""@,
        call_args_text(seq![a]) == a.name@,
        args.len() > 0 ==> call_args_text(args.push(a)) == call_args_text(args) + ", "@ + a.name@,
{
    assert(args.push(a).drop_last() =~= args);
}

/// The `initialization` attribute, applied with arguments or not
/// (`attr_empty`) to `item`: refused with arguments, on anything but a
/// function, and on a function whose return type is of no known kind;
/// otherwise the plan of its `initialize`, with its source.
pub fn initialization(attr_empty: bool, item: &ItemModel) -> (r: Result<InitializerPlan, MacroError>)
    requires
        attr_empty && item.is_fn ==> {
            &&& args_named(item.args@)
            &&& (item.ret matches ReturnTy::Type(Ty::Path(segs)) ==> segs.len() > 0)
        },
    ensures
        match r {
            Err(e) => if !attr_empty {
                e.says("initialization takes no arguments"@)
            } else if !item.is_fn {
                e.says("initialization can only be used on functions"@)
            } else {
                return_kind(item.ret) == ReturnKind::Unknown && e.says(
                    "must either be Result<(), T>, Option<()> or ()"@,
                )
            },
            Ok(p) => {
                &&& attr_empty && item.is_fn
                &&& return_kind(item.ret) != ReturnKind::Unknown
                &&& p.vis@ == item.vis@
                &&& p.call@ == item.name@
                &&& args_taken(p.args@, item.args@)
                &&& init_return_for(p.ret, item.ret)
                &&& p.stores_result == (return_kind(item.ret) != ReturnKind::Plain)
                &&& p.source@ == initialize_text(p.vis@, p.call@, p.args@, p.ret, p.stores_result)
            },
        },
{
    if !attr_empty {
        return Err(error("initialization takes no arguments"));
    }
    if !item.is_fn {
        return Err(error("initialization can only be used on functions"));
    }
    let mut args: Vec<TypedArg> = Vec::new();
    let mut i: usize = 1;
    while i < item.args.len()
        invariant
            1 <= i,
            i <= item.args@.len() || (item.args@.len() == 0 && i == 1),
            args_named(item.args@),
            args@.len() == i - 1,
            forall|j: int|
                0 <= j < i - 1 ==> (#[trigger] args@[j]).name@ == item.args@[j + 1]->Typed_0->Some_0@
                    && args@[j].ty@ == item.args@[j + 1]->Typed_1@,
        decreases item.args@.len() - i,
    {
        assert(item.args@[i as int] matches FnArg::Typed(Some(_), _));
        match &item.args[i] {
            FnArg::Typed(Some(id), ty) => {
                args.push(TypedArg { name: id.clone(), ty: ty.clone() });
            },
            _ => {},
        }
        i = i + 1;
    }
    let kind = match check_return(&item.ret) {
        Ok(k) => k,
        Err(e) => {
            return Err(e);
        },
    };
    let ret = match kind {
        ReturnKind::Result => {
            let g = match &item.ret {
                ReturnTy::Type(Ty::Path(segs)) => match &segs[segs.len() - 1].arguments {
                    PathArgs::AngleBracketed(g) => g,
                    _ => {
                        proof {
                            assert(false);
                        }
                        return Err(error("must either be Result<(), T>, Option<()> or ()"));
                    },
                },
                _ => {
                    proof {
                        assert(false);
                    }
                    return Err(error("must either be Result<(), T>, Option<()> or ()"));
                },
            };
            assert(g@ == last_generics(item.ret));
            match &g[1] {
                GenericArg::Type(t) => InitReturn::Result(t.clone()),
                GenericArg::Other => {
                    proof {
                        assert(false);
                    }
                    return Err(error("must either be Result<(), T>, Option<()> or ()"));
                },
            }
        },
        ReturnKind::Option => InitReturn::Option,
        _ => InitReturn::Plain,
    };
    let stores = match kind {
        ReturnKind::Plain => false,
        _ => true,
    };
    let source = initialize_source(&item.vis, &item.name, &args, &ret, stores);
    Ok(
        InitializerPlan {
            vis: item.vis.clone(),
            call: item.name.clone(),
            args,
            ret,
            stores_result: stores,
            source,
        },
    )
}

proof fn lemma_middle_distinct(p: Seq<char>, q: Seq<char>, f1: Seq<char>, f2: Seq<char>)
    requires
        f1 != f2,
    ensures
        p + f1 + q != p + f2 + q,
{
    if p + f1 + q == p + f2 + q {
        let a = p + f1 + q;
        assert((p + f1 + q).len() == p.len() + f1.len() + q.len());
        assert((p + f2 + q).len() == p.len() + f2.len() + q.len());
        assert(f1.len() == f2.len());
        assert forall|i: int| 0 <= i < f1.len() implies f1[i] == f2[i] by {
            assert(a[p.len() + i] == f1[i]);
            assert((p + f2 + q)[p.len() + i] == f2[i]);
        }
        assert(f1 =~= f2);
    }
}

/// Distinct listener fields of one struct get distinct trampolines (as
/// [`trampoline_name`] names them), so the derive never defines one
/// function twice.
pub proof fn law_trampoline_names_distinct(struct_name: Seq<char>, f1: Seq<char>, f2: Seq<char>)
    requires
        f1 != f2,
    ensures
        "__"@ + snake_case(struct_name) + "_"@ + f1 + "_trampoline"@ != "__"@ + snake_case(
            struct_name,
        ) + "_"@ + f2 + "_trampoline"@,
{
    lemma_middle_distinct("__"@ + snake_case(struct_name) + "_"@, "_trampoline"@, f1, f2);
}

/// Distinct listener fields get distinct initialisers (as [`init_name`]
/// names them).
pub proof fn law_init_names_distinct(f1: Seq<char>, f2: Seq<char>)
    requires
        f1 != f2,
    ensures
        "__init_"@ + f1 != "__init_"@ + f2,
{
    lemma_middle_distinct("__init_"@, Seq::empty(), f1, f2);
    assert("__init_"@ + f1 + Seq::<char>::empty() =~= "__init_"@ + f1);
    assert("__init_"@ + f2 + Seq::<char>::empty() =~= "__init_"@ + f2);
}

// ---- the listener attribute ------------------------------------------------

/// A path read from tokens: the segments of `a::b::c`, the first one, or
/// the message of the parse error. A path is identifiers separated by `::`.
pub open spec fn path_result(q: Seq<Token>) -> Result<Seq<Seq<char>>, Seq<char>>
    decreases q.len(),
{
    if q.len() == 0 {
        Err("expected identifier"@)
    } else {
        match q[0] {
            Token::Ident(id) => if q.len() == 1 {
                Ok(seq![id@])
            } else if q[1] is PathSep {
                match path_result(q.subrange(2, q.len() as int)) {
                    Ok(rest) => Ok(seq![id@] + rest),
                    Err(m) => Err(m),
                }
            } else {
                Err("unexpected token"@)
            },
            _ => Err("expected identifier"@),
        }
    }
}

/// A path with an optional leading `::`: whether it has one, and its
/// segments.
pub open spec fn lead_path_result(p: Seq<Token>) -> Result<(bool, Seq<Seq<char>>), Seq<char>> {
    let lead = p.len() > 0 && p[0] is PathSep;
    let q = if lead {
        p.subrange(1, p.len() as int)
    } else {
        p
    };
    match path_result(q) {
        Ok(segs) => Ok((lead, segs)),
        Err(m) => Err(m),
    }
}

/// The segments of a path joined by `::`.
pub open spec fn join_path(segs: Seq<Seq<char>>) -> Seq<char>
    decreases segs.len(),
{
    if segs.len() == 0 {
        Seq::empty()
    } else if segs.len() == 1 {
        segs[0]
    } else {
        join_path(segs.drop_last()) + "::"@ + segs.last()
    }
}

/// The source text of a path type.
pub open spec fn type_text(lead: bool, segs: Seq<Seq<char>>) -> Seq<char> {
    if lead {
        "::"@ + join_path(segs)
    } else {
        join_path(segs)
    }
}

/// A path type's text: one segment is itself, each further segment comes
/// after `::`, and a leading `::` stands first.
pub proof fn law_type_text(segs: Seq<Seq<char>>, x: Seq<char>)
    ensures
        join_path(seq![x]) == x,
        segs.len() > 0 ==> join_path(segs.push(x)) == join_path(segs) + "::"@ + x,
        type_text(false, segs) == join_path(segs),
        type_text(true, segs) == "::"@ + join_path(segs),
{
    assert(segs.push(x).drop_last() =~= segs);
}

/// What the arguments of `#[listener(..)]` give: the callback path (whether
/// it has a leading `::`, its segments) and the type of the signal's data
/// that the attribute names, if it names one. Two forms are read:
/// `callback = path`, and a string literal naming the callback, optionally
/// followed by `,` and the data type (`"on_new_output", Output`).
/// Otherwise the message of the first parse error (`expected `callback``
/// when the first identifier is another one; the others are syn's: a
/// missing identifier, `=` or `,`, a token left over).
pub open spec fn callback_result(args: Seq<Token>) -> Result<
    (bool, Seq<Seq<char>>, Option<Seq<char>>),
    Seq<char>,
> {
    if args.len() == 0 {
        Err("expected identifier"@)
    } else {
        match args[0] {
            Token::Ident(k) => if k@ != "callback"@ {
                Err("expected `callback`"@)
            } else if args.len() < 2 || !(args[1] is Eq) {
                Err("expected `=`"@)
            } else {
                match lead_path_result(args.subrange(2, args.len() as int)) {
                    Ok(p) => Ok((p.0, p.1, None)),
                    Err(m) => Err(m),
                }
            },
            Token::Lit(name) => if args.len() == 1 {
                Ok((false, seq![name@], None))
            } else if !(args[1] is Comma) {
                Err("expected `,`"@)
            } else {
                match lead_path_result(args.subrange(2, args.len() as int)) {
                    Ok(p) => Ok((false, seq![name@], Some(type_text(p.0, p.1)))),
                    Err(m) => Err(m),
                }
            },
            _ => Err("expected identifier"@),
        }
    }
}

/// The callback of a listener field, and the data type its attribute names.
#[derive(Debug, Clone, PartialEq, Eq)]
pub struct CallbackPath {
    pub leading_colon: bool,
    pub segments: Vec<String>,
    pub data: Option<String>,
}

pub open spec fn opt_text(o: Option<String>) -> Option<Seq<char>> {
    match o {
        Some(t) => Some(t@),
        None => None,
    }
}

fn parse_path(q: &Vec<Token>, start: usize) -> (r: Result<Vec<String>, MacroError>)
    requires
        start <= q@.len(),
    ensures
        match r {
            Ok(v) => path_result(q@.subrange(start as int, q@.len() as int)) == Ok::<
                Seq<Seq<char>>,
                Seq<char>,
            >(texts(v@)),
            Err(e) => path_result(q@.subrange(start as int, q@.len() as int)) == Err::<
                Seq<Seq<char>>,
                Seq<char>,
            >(e.message@),
        },
    decreases q@.len() - start,
{
    let ghost qs = q@.subrange(start as int, q@.len() as int);
    if start == q.len() {
        return Err(error("expected identifier"));
    }
    let id = match &q[start] {
        Token::Ident(id) => id.clone(),
        _ => {
            return Err(error("expected identifier"));
        },
    };
    assert(qs[0] == q@[start as int]);
    let mut v: Vec<String> = Vec::new();
    v.push(id);
    if start + 1 == q.len() {
        proof {
            assert(texts(v@) =~= seq![id@]);
        }
        return Ok(v);
    }
    assert(qs[1] == q@[start + 1]);
    match &q[start + 1] {
        Token::PathSep => {},
        _ => {
            return Err(error("unexpected token"));
        },
    }
    assert(qs.subrange(2, qs.len() as int) =~= q@.subrange(start + 2, q@.len() as int));
    match parse_path(q, start + 2) {
        Ok(rest) => {
            let mut rest = rest;
            let ghost rv = rest@;
            v.append(&mut rest);
            proof {
                assert(texts(v@) =~= seq![id@] + texts(rv));
            }
            Ok(v)
        },
        Err(e) => Err(e),
    }
}

/// Reads a path with an optional leading `::` from `start` on (see
/// [`lead_path_result`]).
fn parse_lead_path(args: &Vec<Token>, start: usize) -> (r: Result<(bool, Vec<String>), MacroError>)
    requires
        start <= args@.len(),
    ensures
        match r {
            Ok(p) => lead_path_result(args@.subrange(start as int, args@.len() as int)) == Ok::<
                (bool, Seq<Seq<char>>),
                Seq<char>,
            >((p.0, texts(p.1@))),
            Err(e) => lead_path_result(args@.subrange(start as int, args@.len() as int)) == Err::<
                (bool, Seq<Seq<char>>),
                Seq<char>,
            >(e.message@),
        },
{
    let lead = args.len() > start && match &args[start] {
        Token::PathSep => true,
        _ => false,
    };
    let from: usize = if lead { start + 1 } else { start };
    proof {
        let p = args@.subrange(start as int, args@.len() as int);
        if lead {
            assert(p.subrange(1, p.len() as int) =~= args@.subrange(start + 1, args@.len() as int));
        }
    }
    match parse_path(args, from) {
        Ok(segments) => Ok((lead, segments)),
        Err(e) => Err(e),
    }
}

/// The source text of a path type (see [`type_text`]).
fn path_text(lead: bool, segs: &Vec<String>) -> (r: String)
    requires
        segs@.len() > 0,
    ensures
        r@ == type_text(lead, texts(segs@)),
{
    let mut r = String::from_str(if lead { "::" } else { "" });
    proof {
        reveal_strlit("");
    }
    let ghost pre = r@;
    r.append(segs[0].as_str());
    proof {
        assert(texts(segs@).subrange(0, 1) =~= seq![segs@[0]@]);
    }
    let mut i: usize = 1;
    while i < segs.len()
        invariant
            1 <= i <= segs@.len(),
            pre == (if lead { "::"@ } else { Seq::<char>::empty() }),
            r@ == pre + join_path(texts(segs@).subrange(0, i as int)),
        decreases segs@.len() - i,
    {
        r.append("::");
        r.append(segs[i].as_str());
        proof {
            let t = texts(segs@).subrange(0, i + 1);
            assert(t.drop_last() =~= texts(segs@).subrange(0, i as int));
            assert(t.last() == segs@[i as int]@);
            assert(r@ =~= pre + join_path(t));
        }
        i = i + 1;
    }
    proof {
        assert(texts(segs@).subrange(0, segs@.len() as int) =~= texts(segs@));
    }
    r
}

/// Parses the arguments of a field's `#[listener(..)]` attribute (see
/// [`callback_result`]).
pub fn parse_callback(args: &Vec<Token>) -> (r: Result<CallbackPath, MacroError>)
    ensures
        match r {
            Ok(p) => callback_result(args@) == Ok::<(bool, Seq<Seq<char>>, Option<Seq<char>>), Seq<char>>(
                (p.leading_colon, texts(p.segments@), opt_text(p.data)),
            ),
            Err(e) => callback_result(args@) == Err::<(bool, Seq<Seq<char>>, Option<Seq<char>>), Seq<char>>(
                e.message@,
            ),
        },
{
    if args.len() == 0 {
        return Err(error("expected identifier"));
    }
    match &args[0] {
        Token::Ident(k) => {
            if !same_text(k, "callback") {
                return Err(error("expected `callback`"));
            }
            if args.len() < 2 {
                return Err(error("expected `=`"));
            }
            match &args[1] {
                Token::Eq => {},
                _ => {
                    return Err(error("expected `=`"));
                },
            }
            match parse_lead_path(args, 2) {
                Ok((lead, segments)) => Ok(CallbackPath { leading_colon: lead, segments, data: None }),
                Err(e) => Err(e),
            }
        },
        Token::Lit(name) => {
            let mut segments: Vec<String> = Vec::new();
            segments.push(name.clone());
            proof {
                assert(texts(segments@) =~= seq![name@]);
            }
            if args.len() == 1 {
                return Ok(CallbackPath { leading_colon: false, segments, data: None });
            }
            match &args[1] {
                Token::Comma => {},
                _ => {
                    return Err(error("expected `,`"));
                },
            }
            match parse_lead_path(args, 2) {
                Ok((lead, ty)) => {
                    proof {
                        assert(texts(ty@).len() == ty@.len());
                    }
                    let text = path_text(lead, &ty);
                    Ok(CallbackPath { leading_colon: false, segments, data: Some(text) })
                },
                Err(e) => Err(e),
            }
        },
        _ => Err(error("expected identifier")),
    }
}

// ---- the WlListeners derive -------------------------------------------------

/// The first attribute named `listener`, if any.
pub open spec fn first_listener(attrs: Seq<FieldAttr>) -> Option<FieldAttr>
    decreases attrs.len(),
{
    if attrs.len() == 0 {
        None
    } else if attrs[0].path@ == "listener"@ {
        Some(attrs[0])
    } else {
        first_listener(attrs.subrange(1, attrs.len() as int))
    }
}

/// What a listener field gives: what its attribute says (see
/// [`callback_result`]) and the argument type of its own type, or the first
/// error, the attribute's before the type's.
pub open spec fn field_outcome(args: Seq<Token>, ty: Ty) -> Result<
    ((bool, Seq<Seq<char>>, Option<Seq<char>>), Option<Seq<char>>),
    Seq<char>,
> {
    match callback_result(args) {
        Err(m) => Err(m),
        Ok(c) => match listener_arg_of(ty) {
            Err(m) => Err(m),
            Ok(t) => Ok((c, t)),
        },
    }
}

/// The type of the data a listener field's callback receives: the one its
/// attribute names, else the argument of its `Listener<T>` type.
pub open spec fn data_type(o: ((bool, Seq<Seq<char>>, Option<Seq<char>>), Option<Seq<char>>)) -> Option<Seq<char>> {
    match o.0.2 {
        Some(d) => Some(d),
        None => o.1,
    }
}

/// The data a listener's callback receives is the type its attribute
/// names when it names one, and otherwise the argument of its
/// `Listener<T>` type (none for a plain `Listener`).
pub proof fn law_data_type(c: (bool, Seq<Seq<char>>, Option<Seq<char>>), t: Option<Seq<char>>, d: Seq<char>)
    ensures
        c.2 == Some(d) ==> data_type((c, t)) == Some(d),
        c.2 is None ==> data_type((c, t)) == t,
{
}

/// The plan of one listener field: its name, its callback, its argument
/// type, its trampoline `__{struct}_{field}_trampoline` and its
/// initialiser `__init_{field}`.
pub open spec fn plan_for(name: Seq<char>, callback: Seq<char>, arg: Option<Seq<char>>, snake: Seq<char>) -> (
    Seq<char>,
    Seq<char>,
    Option<Seq<char>>,
    Seq<char>,
    Seq<char>,
) {
    (name, callback, arg, "__"@ + snake + "_"@ + name + "_trampoline"@, "__init_"@ + name)
}

/// What the derive makes of the fields of a struct whose name in
/// snake_case is `snake`: the plans of the fields with a `listener`
/// attribute, in declaration order, or the error of the first such field
/// that is refused.
pub open spec fn plans_of(fields: Seq<Field>, snake: Seq<char>) -> Result<
    Seq<(Seq<char>, Seq<char>, Option<Seq<char>>, Seq<char>, Seq<char>)>,
    Seq<char>,
>
    decreases fields.len(),
{
    if fields.len() == 0 {
        Ok(Seq::empty())
    } else {
        let f = fields[0];
        let rest = plans_of(fields.subrange(1, fields.len() as int), snake);
        match first_listener(f.attrs@) {
            None => rest,
            Some(a) => match field_outcome(a.args@, f.ty) {
                Err(m) => Err(m),
                Ok(o) => match rest {
                    Ok(ps) => Ok(
                        seq![plan_for(f.ident.unwrap()@, o.0.1[0], data_type(o), snake)] + ps,
                    ),
                    Err(m) => Err(m),
                },
            },
        }
    }
}

/// Every listener field among `fields` is taken: its callback and its type
/// are read without error.
pub open spec fn listeners_ok(fields: Seq<Field>) -> bool {
    forall|j: int|
        0 <= j < fields.len() ==> (#[trigger] first_listener(fields[j].attrs@) matches Some(a)
            ==> field_outcome(a.args@, fields[j].ty) is Ok)
}

/// A listener field can be expanded: it has a name, and its callback is a
/// single identifier (the derive unwraps both).
pub open spec fn field_expands(f: Field) -> bool {
    match first_listener(f.attrs@) {
        None => true,
        Some(a) => match field_outcome(a.args@, f.ty) {
            Err(_) => true,
            Ok(o) => f.ident is Some && !o.0.0 && o.0.1.len() == 1,
        },
    }
}

/// How a trampoline calls its callback: with no argument, or with the
/// signal's data pinned as the given type.
#[derive(Debug, Clone, PartialEq, Eq)]
pub enum TrampolineCall {
    NoData,
    PinnedData(String),
}

pub open spec fn call_view(c: TrampolineCall) -> Option<Seq<char>> {
    match c {
        TrampolineCall::NoData => None,
        TrampolineCall::PinnedData(t) => Some(t@),
    }
}

/// The call of a trampoline for a listener's argument type.
pub fn trampoline_call(arg: &Option<String>) -> (c: TrampolineCall)
    ensures
        call_view(c) == match arg {
            Some(t) => Some(t@),
            None => None::<Seq<char>>,
        },
{
    match arg {
        Some(t) => TrampolineCall::PinnedData(t.clone()),
        None => TrampolineCall::NoData,
    }
}

/// What the derive generates for one listener field.
#[derive(Debug, Clone, PartialEq, Eq)]
pub struct ListenerPlan {
    pub field: String,
    pub callback: String,
    pub call: TrampolineCall,
    pub trampoline: String,
    pub init: String,
}

pub open spec fn plan_view(p: ListenerPlan) -> (Seq<char>, Seq<char>, Option<Seq<char>>, Seq<char>, Seq<char>) {
    (p.field@, p.callback@, call_view(p.call), p.trampoline@, p.init@)
}

proof fn lemma_plans_step(fields: Seq<Field>, i: int, snake: Seq<char>)
    requires
        0 <= i < fields.len(),
    ensures
        ({
            let here = fields.subrange(i, fields.len() as int);
            let next = fields.subrange(i + 1, fields.len() as int);
            &&& here[0] == fields[i]
            &&& here.subrange(1, here.len() as int) == next
            &&& plans_of(here, snake) == match first_listener(fields[i].attrs@) {
                None => plans_of(next, snake),
                Some(a) => match field_outcome(a.args@, fields[i].ty) {
                    Err(m) => Err(m),
                    Ok(o) => match plans_of(next, snake) {
                        Ok(ps) => Ok(seq![plan_for(fields[i].ident.unwrap()@, o.0.1[0], data_type(o), snake)] + ps),
                        Err(m) => Err(m),
                    },
                },
            }
        }),
{
    let here = fields.subrange(i, fields.len() as int);
    assert(here.subrange(1, here.len() as int) =~= fields.subrange(i + 1, fields.len() as int));
}

/// When every listener field among the first `i` fields is taken, the
/// plans of all fields fail exactly as those of the fields from `i` on.
proof fn lemma_plans_prefix(fields: Seq<Field>, i: int, snake: Seq<char>)
    requires
        0 <= i <= fields.len(),
        forall|j: int|
            0 <= j < i ==> (#[trigger] first_listener(fields[j].attrs@) matches Some(a)
                ==> field_outcome(a.args@, fields[j].ty) is Ok),
    ensures
        plans_of(fields.subrange(i, fields.len() as int), snake) is Err ==> plans_of(fields, snake)
            == plans_of(fields.subrange(i, fields.len() as int), snake),
        plans_of(fields.subrange(i, fields.len() as int), snake) is Ok ==> plans_of(fields, snake) is Ok,
    decreases i,
{
    if i > 0 {
        lemma_plans_prefix(fields, i - 1, snake);
        lemma_plans_step(fields, i - 1, snake);
        let _ = first_listener(fields[i - 1].attrs@);
    } else {
        assert(fields.subrange(0, fields.len() as int) =~= fields);
    }
}

/// Finds the first `listener` attribute of a field.
fn find_listener(attrs: &Vec<FieldAttr>) -> (r: Option<usize>)
    ensures
        match r {
            Some(i) => i < attrs@.len() && first_listener(attrs@) == Some(attrs@[i as int]),
            None => first_listener(attrs@) is None,
        },
{
    let mut i: usize = 0;
    proof {
        assert(attrs@.subrange(0, attrs@.len() as int) =~= attrs@);
    }
    while i < attrs.len()
        invariant
            0 <= i <= attrs@.len(),
            first_listener(attrs@) == first_listener(attrs@.subrange(i as int, attrs@.len() as int)),
        decreases attrs@.len() - i,
    {
        let ghost rest = attrs@.subrange(i as int, attrs@.len() as int);
        assert(rest[0] == attrs@[i as int]);
        if same_text(&attrs[i].path, "listener") {
            return Some(i);
        }
        assert(rest.subrange(1, rest.len() as int) =~= attrs@.subrange(i + 1, attrs@.len() as int));
        i = i + 1;
    }
    proof {
        assert(attrs@.subrange(i as int, attrs@.len() as int) =~= Seq::<FieldAttr>::empty());
    }
    None
}

/// The `WlListeners` derive: for a struct, the plans of its listener fields
/// (see [`plans_of`]); anything but a struct is refused.
pub fn derive_wl_listeners(struct_name: &str, data: &DeriveData) -> (r: Result<Vec<ListenerPlan>, MacroError>)
    requires
        match *data {
            DeriveData::Struct(fs) => listeners_ok(field_seq(fs)) ==> forall|k: int|
                0 <= k < field_seq(fs).len() ==> field_expands(#[trigger] field_seq(fs)[k]),
            _ => true,
        },
    ensures
        match *data {
            DeriveData::Struct(fs) => match r {
                Ok(ps) => plans_of(field_seq(fs), snake_case(struct_name@)) == Ok::<
                    Seq<(Seq<char>, Seq<char>, Option<Seq<char>>, Seq<char>, Seq<char>)>,
                    Seq<char>,
                >(ps@.map_values(|p: ListenerPlan| plan_view(p))),
                Err(e) => plans_of(field_seq(fs), snake_case(struct_name@)) == Err::<
                    Seq<(Seq<char>, Seq<char>, Option<Seq<char>>, Seq<char>, Seq<char>)>,
                    Seq<char>,
                >(e.message@),
            },
            _ => r matches Err(e) && e.says("WlListeners only works on structs"@),
        },
{
    let fields = match data {
        DeriveData::Struct(f) => f,
        _ => {
            return Err(error("WlListeners only works on structs"));
        },
    };
    let empty: Vec<Field> = Vec::new();
    let fs: &Vec<Field> = match fields {
        super::syntax::Fields::Named(v) => v,
        super::syntax::Fields::Unnamed(v) => v,
        super::syntax::Fields::Unit => &empty,
    };
    assert(fs@ == field_seq(*fields));
    assert(*data == DeriveData::Struct(*fields));
    let snake = to_snake_case(struct_name);
    let ghost sn = snake@;
    // every listener field is parsed first; the first refusal is the result
    let mut i: usize = 0;
    while i < fs.len()
        invariant
            0 <= i <= fs@.len(),
            sn == snake_case(struct_name@),
            fs@ == field_seq(*fields),
            *data == DeriveData::Struct(*fields),
            forall|j: int|
                0 <= j < i ==> (#[trigger] first_listener(fs@[j].attrs@) matches Some(a)
                    ==> field_outcome(a.args@, fs@[j].ty) is Ok),
        decreases fs@.len() - i,
    {
        let f = &fs[i];
        match find_listener(&f.attrs) {
            None => {},
            Some(k) => {
                let a = &f.attrs[k];
                let c = parse_callback(&a.args);
                match c {
                    Err(e) => {
                        proof {
                            lemma_plans_step(fs@, i as int, sn);
                            lemma_plans_prefix(fs@, i as int, sn);
                        }
                        return Err(e);
                    },
                    Ok(_) => {},
                }
                match listener_arg_type(&f.ty) {
                    Err(e) => {
                        proof {
                            lemma_plans_step(fs@, i as int, sn);
                            lemma_plans_prefix(fs@, i as int, sn);
                        }
                        return Err(e);
                    },
                    Ok(_) => {},
                }
            },
        }
        i = i + 1;
    }
    proof {
        assert(fs@.subrange(fs@.len() as int, fs@.len() as int) =~= Seq::<Field>::empty());
        lemma_plans_prefix(fs@, fs@.len() as int, sn);
        assert(listeners_ok(fs@));
    }
    // then each listener field is expanded
    let mut plans: Vec<ListenerPlan> = Vec::new();
    let mut i: usize = 0;
    proof {
        assert(fs@.subrange(0, fs@.len() as int) =~= fs@);
        assert(plans@.map_values(|p: ListenerPlan| plan_view(p)) + plans_of(fs@, sn)->Ok_0 =~= plans_of(
            fs@,
            sn,
        )->Ok_0);
    }
    while i < fs.len()
        invariant
            0 <= i <= fs@.len(),
            fs@ == field_seq(*fields),
            *data == DeriveData::Struct(*fields),
            sn == snake_case(struct_name@),
            snake@ == sn,
            plans_of(fs@, sn) is Ok,
            forall|k: int| 0 <= k < fs@.len() ==> field_expands(#[trigger] fs@[k]),
            plans_of(fs@.subrange(i as int, fs@.len() as int), sn) is Ok,
            plans_of(fs@, sn)->Ok_0 == plans@.map_values(|p: ListenerPlan| plan_view(p)) + plans_of(
                fs@.subrange(i as int, fs@.len() as int),
                sn,
            )->Ok_0,
        decreases fs@.len() - i,
    {
        proof {
            lemma_plans_step(fs@, i as int, sn);
        }
        let f = &fs[i];
        assert(field_expands(fs@[i as int]));
        match find_listener(&f.attrs) {
            None => {},
            Some(k) => {
                let a = &f.attrs[k];
                let c = parse_callback(&a.args).unwrap();
                let t = listener_arg_type(&f.ty).unwrap();
                let callback = c.segments[0].clone();
                proof {
                    assert(texts(c.segments@)[0] == c.segments@[0]@);
                }
                let d = match c.data {
                    Some(d) => Some(d),
                    None => t,
                };
                let name = match &f.ident {
                    Some(n) => n.clone(),
                    None => {
                        proof {
                            assert(false);
                        }
                        return Err(error("listener field without a name"));
                    },
                };
                let plan = ListenerPlan {
                    field: name.clone(),
                    callback,
                    call: trampoline_call(&d),
                    trampoline: trampoline_ident(snake.as_str(), name.as_str()),
                    init: init_name(name.as_str()),
                };
                let ghost old_plans = plans@;
                plans.push(plan);
                proof {
                    assert(plans@.map_values(|p: ListenerPlan| plan_view(p)) =~= old_plans.map_values(
                        |p: ListenerPlan| plan_view(p),
                    ).push(plan_view(plan)));
                }
            },
        }
        i = i + 1;
    }
    proof {
        assert(fs@.subrange(fs@.len() as int, fs@.len() as int) =~= Seq::<Field>::empty());
        assert(plans@.map_values(|p: ListenerPlan| plan_view(p)) + Seq::empty() =~= plans@.map_values(
            |p: ListenerPlan| plan_view(p),
        ));
    }
    Ok(plans)
}


// ---- what the WlListeners derive generates ----------------------------------

/// The view of a plan: field, callback, data type, trampoline, initialiser.
pub type PlanView = (Seq<char>, Seq<char>, Option<Seq<char>>, Seq<char>, Seq<char>);

/// The call a trampoline makes on the struct: the callback with the data
/// pinned as the given type, or with no argument.
pub open spec fn call_text(callback: Seq<char>, data: Option<Seq<char>>) -> Seq<char> {
    match data {
        Some(t) => callback + "(::std::pin::Pin::new_unchecked((data as *mut "@ + t + ").as_mut().unwrap()))"@,
        None => callback + "()"@,
    }
}

/// The source of a listener's trampoline in the struct `s`: a NULL listener
/// returns without a call; otherwise the struct that holds the listener
/// (found back from the listener's offset in it) runs the callback.
pub open spec fn trampoline_text(s: Seq<char>, p: PlanView) -> Seq<char> {
    ("/// Trampoline for to be used in C callbacks.\nunsafe extern \"C\" fn "@ + p.3 + "(\n    listener: *mut crate::ffi::wl_listener,\n    data: *mut std::ffi::c_void,\n) {\n    if listener.is_null() {\n        crate::error!(\"failed listener callback, listener is NULL!\");\n        return;\n    }\n"@) + "\n"@ + ("    let this = (listener as *mut u8)\n        .sub(::memoffset::offset_of!("@ + s + ", "@ + p.0 + "))\n        as *mut "@ + s + ";\n"@) + "\n"@ + ("    unsafe { ::std::pin::Pin::new_unchecked(this.as_mut().unwrap()) }."@ + call_text(p.1, p.2) + ";\n}\n"@)
}

/// The source of a listener's initialiser: it initialises the listener
/// with the trampoline as its notify function.
pub open spec fn init_text(p: PlanView) -> Seq<char> {
    ("/// In place initialization\nfn "@ + p.4 + "(mut self: ::std::pin::Pin<&mut Self>) {\n"@) + ("    self.project()."@ + p.0 + ".init(Self::"@ + p.3 + ");\n"@) + "}\n"@
}

pub open spec fn trampolines_text(s: Seq<char>, ps: Seq<PlanView>) -> Seq<char>
    decreases ps.len(),
{
    if ps.len() == 0 {
        ""@
    } else {
        trampolines_text(s, ps.drop_last()) + trampoline_text(s, ps.last())
    }
}

pub open spec fn inits_text(ps: Seq<PlanView>) -> Seq<char>
    decreases ps.len(),
{
    if ps.len() == 0 {
        ""@
    } else {
        inits_text(ps.drop_last()) + init_text(ps.last())
    }
}

/// The body of `__initialize_callbacks`: each initialiser called, in the
/// order of the fields.
pub open spec fn init_calls_text(ps: Seq<PlanView>) -> Seq<char>
    decreases ps.len(),
{
    if ps.len() == 0 {
        ""@
    } else {
        init_calls_text(ps.drop_last()) + "    self.as_mut()."@ + ps.last().4 + "();\n"@
    }
}

/// The source of the impl that `WlListeners` generates for the struct `s`
/// with the generics `ig`, `tg` and the where clause `wc`: the trampolines,
/// the initialisers and `__initialize_callbacks`.
pub open spec fn listeners_impl_text(s: Seq<char>, ig: Seq<char>, tg: Seq<char>, wc: Seq<char>, ps: Seq<PlanView>) -> Seq<char> {
    ("impl"@ + ig + " "@ + s + tg + " "@ + wc + " {\n"@) + trampolines_text(s, ps) + inits_text(ps) + ("fn __initialize_callbacks(mut self: ::std::pin::Pin<&mut Self>) {\n"@ + init_calls_text(ps) + "}\n}\n"@)
}

fn call_source(p: &ListenerPlan) -> (r: String)
    ensures
        r@ == call_text(p.callback@, call_view(p.call)),
{
    let mut r = String::from_str(p.callback.as_str());
    match &p.call {
        TrampolineCall::PinnedData(t) => {
            r.append("(::std::pin::Pin::new_unchecked((data as *mut ");
            r.append(t.as_str());
            r.append(").as_mut().unwrap()))");
        },
        TrampolineCall::NoData => {
            r.append("()");
        },
    }
    r
}

fn trampoline_source(s: &str, p: &ListenerPlan) -> (r: String)
    ensures
        r@ == trampoline_text(s@, plan_view(*p)),
{
    let call = call_source(p);
    let mut part1 = String::from_str("/// Trampoline for to be used in C callbacks.\nunsafe extern \"C\" fn ");
    part1.append(p.trampoline.as_str());
    part1.append("(\n    listener: *mut crate::ffi::wl_listener,\n    data: *mut std::ffi::c_void,\n) {\n    if listener.is_null() {\n        crate::error!(\"failed listener callback, listener is NULL!\");\n        return;\n    }\n");
    let mut r = String::from_str(part1.as_str());
    r.append("\n");
    let mut part2 = String::from_str("    let this = (listener as *mut u8)\n        .sub(::memoffset::offset_of!(");
    part2.append(s);
    part2.append(", ");
    part2.append(p.field.as_str());
    part2.append("))\n        as *mut ");
    part2.append(s);
    part2.append(";\n");
    r.append(part2.as_str());
    r.append("\n");
    let mut part3 = String::from_str("    unsafe { ::std::pin::Pin::new_unchecked(this.as_mut().unwrap()) }.");
    part3.append(call.as_str());
    part3.append(";\n}\n");
    r.append(part3.as_str());
    r
}

fn init_source(p: &ListenerPlan) -> (r: String)
    ensures
        r@ == init_text(plan_view(*p)),
{
    let mut part1 = String::from_str("/// In place initialization\nfn ");
    part1.append(p.init.as_str());
    part1.append("(mut self: ::std::pin::Pin<&mut Self>) {\n");
    let mut r = String::from_str(part1.as_str());
    let mut part2 = String::from_str("    self.project().");
    part2.append(p.field.as_str());
    part2.append(".init(Self::");
    part2.append(p.trampoline.as_str());
    part2.append(");\n");
    r.append(part2.as_str());
    r.append("}\n");
    r
}

/// The source of the impl that `WlListeners` generates from the plans (see
/// [`listeners_impl_text`]).
pub fn listeners_impl_source(s: &str, ig: &str, tg: &str, wc: &str, plans: &Vec<ListenerPlan>) -> (r: String)
    ensures
        r@ == listeners_impl_text(s@, ig@, tg@, wc@, plans@.map_values(|p: ListenerPlan| plan_view(p))),
{
    let ghost views = plans@.map_values(|p: ListenerPlan| plan_view(p));
    let mut tr = String::from_str("");
    let mut ini = String::from_str("");
    let mut calls = String::from_str("");
    let mut i: usize = 0;
    while i < plans.len()
        invariant
            0 <= i <= plans@.len(),
            views == plans@.map_values(|p: ListenerPlan| plan_view(p)),
            tr@ == trampolines_text(s@, views.subrange(0, i as int)),
            ini@ == inits_text(views.subrange(0, i as int)),
            calls@ == init_calls_text(views.subrange(0, i as int)),
        decreases plans@.len() - i,
    {
        let t = trampoline_source(s, &plans[i]);
        tr.append(t.as_str());
        let n = init_source(&plans[i]);
        ini.append(n.as_str());
        calls.append("    self.as_mut().");
        calls.append(plans[i].init.as_str());
        calls.append("();\n");
        proof {
            let v = views.subrange(0, i + 1);
            assert(v.drop_last() =~= views.subrange(0, i as int));
            assert(v.last() == plan_view(plans@[i as int]));
        }
        i = i + 1;
    }
    proof {
        assert(views.subrange(0, plans@.len() as int) =~= views);
    }
    let mut part1 = String::from_str("impl");
    part1.append(ig);
    part1.append(" ");
    part1.append(s);
    part1.append(tg);
    part1.append(" ");
    part1.append(wc);
    part1.append(" {\n");
    let mut r = String::from_str(part1.as_str());
    r.append(tr.as_str());
    r.append(ini.as_str());
    let mut part2 = String::from_str("fn __initialize_callbacks(mut self: ::std::pin::Pin<&mut Self>) {\n");
    part2.append(calls.as_str());
    part2.append("}\n}\n");
    r.append(part2.as_str());
    r
}

/// The whole `WlListeners` derive: for a struct whose fields give plans
/// (see [`plans_of`]), the source of the impl generated from them; the
/// error of the first refused listener field, or the refusal of anything
/// but a struct.
pub fn wl_listeners(struct_name: &str, ig: &str, tg: &str, wc: &str, data: &DeriveData) -> (r: Result<String, MacroError>)
    requires
        match *data {
            DeriveData::Struct(fs) => listeners_ok(field_seq(fs)) ==> forall|k: int|
                0 <= k < field_seq(fs).len() ==> field_expands(#[trigger] field_seq(fs)[k]),
            _ => true,
        },
    ensures
        match *data {
            DeriveData::Struct(fs) => match plans_of(field_seq(fs), snake_case(struct_name@)) {
                Ok(ps) => r matches Ok(src) && src@ == listeners_impl_text(struct_name@, ig@, tg@, wc@, ps),
                Err(m) => r matches Err(e) && e.message@ == m,
            },
            _ => r matches Err(e) && e.says("WlListeners only works on structs"@),
        },
{
    match derive_wl_listeners(struct_name, data) {
        Ok(plans) => Ok(listeners_impl_source(struct_name, ig, tg, wc, &plans)),
        Err(e) => Err(e),
    }
}


// ---- laws of what the WlListeners derive generates ------------------------

/// A trampoline, for every struct and listener field: the C function named
/// by the plan, which first returns on a NULL listener; then finds the
/// struct back from the listener (the listener's address less its offset
/// in the struct, at the field); and last runs the callback on that
/// struct, with the signal's data pinned as the data type when there is
/// one and with no argument otherwise.
pub proof fn law_trampoline_generates(s: Seq<char>, p: PlanView)
    ensures
        starts_with(trampoline_text(s, p), "/// Trampoline for to be used in C callbacks.\nunsafe extern \"C\" fn "@ + p.3 + "(\n    listener: *mut crate::ffi::wl_listener,\n    data: *mut std::ffi::c_void,\n) {\n    if listener.is_null() {\n        crate::error!(\"failed listener callback, listener is NULL!\");\n        return;\n    }\n"@),
        has_part(trampoline_text(s, p), "    let this = (listener as *mut u8)\n        .sub(::memoffset::offset_of!("@ + s + ", "@ + p.0 + "))\n        as *mut "@ + s + ";\n"@),
        p.2 matches Some(d) ==> ends_with(
            trampoline_text(s, p),
            "    unsafe { ::std::pin::Pin::new_unchecked(this.as_mut().unwrap()) }."@ + (p.1 + "(::std::pin::Pin::new_unchecked((data as *mut "@ + d + ").as_mut().unwrap()))"@) + ";\n}\n"@,
        ),
        p.2 is None ==> ends_with(trampoline_text(s, p), "    unsafe { ::std::pin::Pin::new_unchecked(this.as_mut().unwrap()) }."@ + (p.1 + "()"@) + ";\n}\n"@),
{
    {
        let q = ("/// Trampoline for to be used in C callbacks.\nunsafe extern \"C\" fn "@ + p.3 + "(\n    listener: *mut crate::ffi::wl_listener,\n    data: *mut std::ffi::c_void,\n) {\n    if listener.is_null() {\n        crate::error!(\"failed listener callback, listener is NULL!\");\n        return;\n    }\n"@);
        let post0 = "\n"@;
        let t1 = ("    let this = (listener as *mut u8)\n        .sub(::memoffset::offset_of!("@ + s + ", "@ + p.0 + "))\n        as *mut "@ + s + ";\n"@);
        vstd::seq_lib::lemma_concat_associative(q, post0, t1);
        let post1 = post0 + t1;
        let t2 = "\n"@;
        vstd::seq_lib::lemma_concat_associative(q, post1, t2);
        let post2 = post1 + t2;
        let t3 = ("    unsafe { ::std::pin::Pin::new_unchecked(this.as_mut().unwrap()) }."@ + call_text(p.1, p.2) + ";\n}\n"@);
        vstd::seq_lib::lemma_concat_associative(q, post2, t3);
        let post3 = post2 + t3;
        assert(trampoline_text(s, p) == q + post3);
        lemma_starts(q, post3);
    }
    {
        let pre = ("/// Trampoline for to be used in C callbacks.\nunsafe extern \"C\" fn "@ + p.3 + "(\n    listener: *mut crate::ffi::wl_listener,\n    data: *mut std::ffi::c_void,\n) {\n    if listener.is_null() {\n        crate::error!(\"failed listener callback, listener is NULL!\");\n        return;\n    }\n"@) + "\n"@;
        let x = ("    let this = (listener as *mut u8)\n        .sub(::memoffset::offset_of!("@ + s + ", "@ + p.0 + "))\n        as *mut "@ + s + ";\n"@);
        let q = pre + x;
        let post0 = "\n"@;
        let t1 = ("    unsafe { ::std::pin::Pin::new_unchecked(this.as_mut().unwrap()) }."@ + call_text(p.1, p.2) + ";\n}\n"@);
        vstd::seq_lib::lemma_concat_associative(q, post0, t1);
        let post1 = post0 + t1;
        assert(trampoline_text(s, p) == pre + x + post1);
        lemma_part(pre, x, post1);
    }
    {
        lemma_ends(("/// Trampoline for to be used in C callbacks.\nunsafe extern \"C\" fn "@ + p.3 + "(\n    listener: *mut crate::ffi::wl_listener,\n    data: *mut std::ffi::c_void,\n) {\n    if listener.is_null() {\n        crate::error!(\"failed listener callback, listener is NULL!\");\n        return;\n    }\n"@) + "\n"@ + ("    let this = (listener as *mut u8)\n        .sub(::memoffset::offset_of!("@ + s + ", "@ + p.0 + "))\n        as *mut "@ + s + ";\n"@) + "\n"@, ("    unsafe { ::std::pin::Pin::new_unchecked(this.as_mut().unwrap()) }."@ + call_text(p.1, p.2) + ";\n}\n"@));
    }
}

/// A listener's initialiser, for every plan: the function named by the plan
/// initialises the listener field with the plan's trampoline.
pub proof fn law_init_generates(p: PlanView)
    ensures
        starts_with(init_text(p), "/// In place initialization\nfn "@ + p.4 + "(mut self: ::std::pin::Pin<&mut Self>) {\n"@),
        has_part(init_text(p), "    self.project()."@ + p.0 + ".init(Self::"@ + p.3 + ");\n"@),
        ends_with(init_text(p), "}\n"@),
{
    {
        let q = ("/// In place initialization\nfn "@ + p.4 + "(mut self: ::std::pin::Pin<&mut Self>) {\n"@);
        let post0 = ("    self.project()."@ + p.0 + ".init(Self::"@ + p.3 + ");\n"@);
        let t1 = "}\n"@;
        vstd::seq_lib::lemma_concat_associative(q, post0, t1);
        let post1 = post0 + t1;
        assert(init_text(p) == q + post1);
        lemma_starts(q, post1);
    }
    {
        let pre = ("/// In place initialization\nfn "@ + p.4 + "(mut self: ::std::pin::Pin<&mut Self>) {\n"@);
        let x = ("    self.project()."@ + p.0 + ".init(Self::"@ + p.3 + ");\n"@);
        let q = pre + x;
        let post0 = "}\n"@;
        assert(init_text(p) == pre + x + post0);
        lemma_part(pre, x, post0);
    }
    {
        lemma_ends(("/// In place initialization\nfn "@ + p.4 + "(mut self: ::std::pin::Pin<&mut Self>) {\n"@) + ("    self.project()."@ + p.0 + ".init(Self::"@ + p.3 + ");\n"@), "}\n"@);
    }
}

/// The trampolines, the initialisers and the initialiser calls follow the
/// plans in order: none for no plans, and each plan adds its own at the end
/// (its call is `self.as_mut().{init}();`).
pub proof fn law_plans_in_order(s: Seq<char>, ps: Seq<PlanView>, p: PlanView)
    ensures
        trampolines_text(s, Seq::empty()) == ""@,
        inits_text(Seq::empty()) == ""@,
        init_calls_text(Seq::empty()) == ""@,
        trampolines_text(s, ps.push(p)) == trampolines_text(s, ps) + trampoline_text(s, p),
        inits_text(ps.push(p)) == inits_text(ps) + init_text(p),
        init_calls_text(ps.push(p)) == init_calls_text(ps) + "    self.as_mut()."@ + p.4 + "();\n"@,
{
    assert(ps.push(p).drop_last() =~= ps);
}

proof fn lemma_each_plan(s: Seq<char>, ps: Seq<PlanView>, k: int)
    requires
        0 <= k < ps.len(),
    ensures
        has_part(trampolines_text(s, ps), trampoline_text(s, ps[k])),
        has_part(inits_text(ps), init_text(ps[k])),
        has_part(init_calls_text(ps), "    self.as_mut()."@ + ps[k].4 + "();\n"@),
    decreases ps.len(),
{
    let prev = ps.drop_last();
    let c = "    self.as_mut()."@ + ps.last().4 + "();\n"@;
    if k == ps.len() - 1 {
        assert(trampolines_text(s, ps) =~= trampolines_text(s, prev) + trampoline_text(s, ps[k]) + Seq::empty());
        lemma_part(trampolines_text(s, prev), trampoline_text(s, ps[k]), Seq::empty());
        assert(inits_text(ps) =~= inits_text(prev) + init_text(ps[k]) + Seq::empty());
        lemma_part(inits_text(prev), init_text(ps[k]), Seq::empty());
        assert(init_calls_text(ps) =~= init_calls_text(prev) + c + Seq::empty());
        lemma_part(init_calls_text(prev), c, Seq::empty());
    } else {
        lemma_each_plan(s, prev, k);
        assert(prev[k] == ps[k]);
        lemma_part_within(trampolines_text(s, prev), trampoline_text(s, ps[k]), Seq::empty(), trampoline_text(s, ps.last()));
        assert(Seq::<char>::empty() + trampolines_text(s, prev) + trampoline_text(s, ps.last()) =~= trampolines_text(s, ps));
        lemma_part_within(inits_text(prev), init_text(ps[k]), Seq::empty(), init_text(ps.last()));
        assert(Seq::<char>::empty() + inits_text(prev) + init_text(ps.last()) =~= inits_text(ps));
        lemma_part_within(init_calls_text(prev), "    self.as_mut()."@ + ps[k].4 + "();\n"@, Seq::empty(), c);
        assert(Seq::<char>::empty() + init_calls_text(prev) + c =~= init_calls_text(ps));
    }
}

/// The impl that `WlListeners` generates, for every struct, generics and
/// plans: it is the impl of the struct with its generics and where clause;
/// it holds the trampoline and the initialiser of every plan; and it ends
/// with `__initialize_callbacks`, which calls every plan's initialiser.
pub proof fn law_listeners_impl_generates(s: Seq<char>, ig: Seq<char>, tg: Seq<char>, wc: Seq<char>, ps: Seq<PlanView>)
    ensures
        starts_with(listeners_impl_text(s, ig, tg, wc, ps), "impl"@ + ig + " "@ + s + tg + " "@ + wc + " {\n"@),
        ends_with(listeners_impl_text(s, ig, tg, wc, ps), "fn __initialize_callbacks(mut self: ::std::pin::Pin<&mut Self>) {\n"@ + init_calls_text(ps) + "}\n}\n"@),
        forall|k: int| 0 <= k < ps.len() ==> has_part(listeners_impl_text(s, ig, tg, wc, ps), #[trigger] trampoline_text(s, ps[k])),
        forall|k: int| 0 <= k < ps.len() ==> has_part(listeners_impl_text(s, ig, tg, wc, ps), #[trigger] init_text(ps[k])),
        forall|k: int|
            0 <= k < ps.len() ==> has_part(
                init_calls_text(ps),
                "    self.as_mut()."@ + (#[trigger] ps[k]).4 + "();\n"@,
            ),
{
    {
        let q = ("impl"@ + ig + " "@ + s + tg + " "@ + wc + " {\n"@);
        let post0 = trampolines_text(s, ps);
        let t1 = inits_text(ps);
        vstd::seq_lib::lemma_concat_associative(q, post0, t1);
        let post1 = post0 + t1;
        let t2 = ("fn __initialize_callbacks(mut self: ::std::pin::Pin<&mut Self>) {\n"@ + init_calls_text(ps) + "}\n}\n"@);
        vstd::seq_lib::lemma_concat_associative(q, post1, t2);
        let post2 = post1 + t2;
        assert(listeners_impl_text(s, ig, tg, wc, ps) == q + post2);
        lemma_starts(q, post2);
    }
    {
        lemma_ends(("impl"@ + ig + " "@ + s + tg + " "@ + wc + " {\n"@) + trampolines_text(s, ps) + inits_text(ps), ("fn __initialize_callbacks(mut self: ::std::pin::Pin<&mut Self>) {\n"@ + init_calls_text(ps) + "}\n}\n"@));
    }
    {
        let pre = ("impl"@ + ig + " "@ + s + tg + " "@ + wc + " {\n"@);
        let x = trampolines_text(s, ps);
        let q = pre + x;
        let post0 = inits_text(ps);
        let t1 = ("fn __initialize_callbacks(mut self: ::std::pin::Pin<&mut Self>) {\n"@ + init_calls_text(ps) + "}\n}\n"@);
        vstd::seq_lib::lemma_concat_associative(q, post0, t1);
        let post1 = post0 + t1;
        assert(listeners_impl_text(s, ig, tg, wc, ps) == pre + x + post1);
        lemma_part(pre, x, post1);
    }
    {
        let pre = ("impl"@ + ig + " "@ + s + tg + " "@ + wc + " {\n"@) + trampolines_text(s, ps);
        let x = inits_text(ps);
        let q = pre + x;
        let post0 = ("fn __initialize_callbacks(mut self: ::std::pin::Pin<&mut Self>) {\n"@ + init_calls_text(ps) + "}\n}\n"@);
        assert(listeners_impl_text(s, ig, tg, wc, ps) == pre + x + post0);
        lemma_part(pre, x, post0);
    }
    assert forall|k: int| 0 <= k < ps.len() implies has_part(listeners_impl_text(s, ig, tg, wc, ps), #[trigger] trampoline_text(s, ps[k])) by {
        lemma_each_plan(s, ps, k);
        lemma_part_trans(listeners_impl_text(s, ig, tg, wc, ps), trampolines_text(s, ps), trampoline_text(s, ps[k]));
    }
    assert forall|k: int| 0 <= k < ps.len() implies has_part(listeners_impl_text(s, ig, tg, wc, ps), #[trigger] init_text(ps[k])) by {
        lemma_each_plan(s, ps, k);
        lemma_part_trans(listeners_impl_text(s, ig, tg, wc, ps), inits_text(ps), init_text(ps[k]));
    }
    assert forall|k: int|
        0 <= k < ps.len() implies has_part(init_calls_text(ps), "    self.as_mut()."@ + (#[trigger] ps[k]).4 + "();\n"@) by {
        lemma_each_plan(s, ps, k);
    }
}

} // verus!
