use wlz::wlz_macros::listener::{
    check_return, classify_return, derive_wl_listeners, init_name, initialization,
    listener_arg_type, listeners_impl_source, parse_callback, trampoline_call, trampoline_ident,
    trampoline_name, wl_listeners, CallbackPath, InitReturn, ListenerPlan, ReturnKind,
    TrampolineCall, TypedArg,
};
use wlz::wlz_macros::ptr::{
    c_ptr, derive_ptr_wrapper, extract_nonnull_inner, from_ptr, has_repr_c, PtrWrapperPlan,
};
use wlz::wlz_macros::syntax::{
    Attr, DeriveData, Field, FieldAttr, Fields, FnArg, GenericArg, ItemModel, MacroError,
    PathArgs, ReturnTy, Segment, Token, Ty,
};

fn seg(ident: &str, arguments: PathArgs) -> Segment {
    Segment { ident: ident.to_string(), arguments }
}

fn path(segs: Vec<Segment>) -> Ty {
    Ty::Path(segs)
}

fn err(msg: &str) -> MacroError {
    MacroError { message: msg.to_string() }
}

#[test]
fn trampoline_names() {
    assert_eq!(trampoline_name("destroy", "ListenerTest"), "__listener_test_destroy_trampoline");
    assert_eq!(trampoline_name("new_output", "WlzServer"), "__wlz_server_new_output_trampoline");
    assert_eq!(trampoline_ident("wlz_output", "frame"), "__wlz_output_frame_trampoline");
    assert_ne!(trampoline_name("map", "WlzToplevel"), trampoline_name("unmap", "WlzToplevel"));
}

#[test]
fn init_names() {
    assert_eq!(init_name("destroy"), "__init_destroy");
    assert_ne!(init_name("a"), init_name("b"));
}

#[test]
fn listener_argument_types() {
    let plain = path(vec![seg("Listener", PathArgs::Bare)]);
    assert_eq!(listener_arg_type(&plain), Ok(None));
    let with = path(vec![
        seg("wrapper", PathArgs::Bare),
        seg("Listener", PathArgs::AngleBracketed(vec![GenericArg::Type("Output".to_string())])),
    ]);
    assert_eq!(listener_arg_type(&with), Ok(Some("Output".to_string())));
    let lifetime_only = path(vec![seg("Listener", PathArgs::AngleBracketed(vec![GenericArg::Other]))]);
    assert_eq!(listener_arg_type(&lifetime_only), Err(err("expected Listener<T>")));
    let other = path(vec![seg("Signal", PathArgs::Bare)]);
    assert_eq!(listener_arg_type(&other), Err(err("expected Listener")));
    let paren = path(vec![seg("Listener", PathArgs::Parenthesized)]);
    assert_eq!(listener_arg_type(&paren), Err(err("unsupported Listener type")));
    assert_eq!(listener_arg_type(&Ty::Other), Err(err("expected Listener<T>")));
    assert_eq!(listener_arg_type(&path(vec![])), Err(err("invalid type")));
}

#[test]
fn initializer_return_kinds() {
    assert_eq!(classify_return(&ReturnTy::Default), ReturnKind::Plain);
    assert_eq!(classify_return(&ReturnTy::Type(Ty::Unit)), ReturnKind::Plain);
    let unit = || GenericArg::Type("()".to_string());
    let result = ReturnTy::Type(path(vec![seg(
        "Result",
        PathArgs::AngleBracketed(vec![unit(), GenericArg::Type("E".to_string())]),
    )]));
    assert_eq!(classify_return(&result), ReturnKind::Result);
    let option = ReturnTy::Type(path(vec![
        seg("std", PathArgs::Bare),
        seg("Option", PathArgs::AngleBracketed(vec![unit()])),
    ]));
    assert_eq!(classify_return(&option), ReturnKind::Option);
    // only `()` may be inside, as the error message says
    let result_u32 = ReturnTy::Type(path(vec![seg(
        "Result",
        PathArgs::AngleBracketed(vec![GenericArg::Type("u32".to_string()), GenericArg::Type("E".to_string())]),
    )]));
    assert_eq!(classify_return(&result_u32), ReturnKind::Unknown);
    assert_eq!(classify_return(&ReturnTy::Type(path(vec![seg("Result", PathArgs::Bare)]))), ReturnKind::Unknown);
    assert_eq!(classify_return(&ReturnTy::Type(path(vec![seg("Option", PathArgs::Bare)]))), ReturnKind::Unknown);
    let other = ReturnTy::Type(path(vec![seg("u32", PathArgs::Bare)]));
    assert_eq!(classify_return(&other), ReturnKind::Unknown);
    assert_eq!(classify_return(&ReturnTy::Type(Ty::Other)), ReturnKind::Unknown);
    assert_eq!(check_return(&result), Ok(ReturnKind::Result));
    assert_eq!(check_return(&other), Err(err("must either be Result<(), T>, Option<()> or ()")));
}

#[test]
fn nonnull_inner_type() {
    let nn = path(vec![seg(
        "NonNull",
        PathArgs::AngleBracketed(vec![GenericArg::Type("ffi::wlr_backend".to_string())]),
    )]);
    assert_eq!(extract_nonnull_inner(&nn), Ok("ffi::wlr_backend".to_string()));
    let bare = path(vec![seg("NonNull", PathArgs::Bare)]);
    assert_eq!(extract_nonnull_inner(&bare), Err(err("Expected NonNull<T>")));
    let boxed = path(vec![seg("Box", PathArgs::AngleBracketed(vec![]))]);
    assert_eq!(extract_nonnull_inner(&boxed), Err(err("Expected NonNull<T>")));
    assert_eq!(extract_nonnull_inner(&Ty::Other), Err(err("Expected NonNull<T>")));
}

#[test]
fn repr_c_detection() {
    let repr = |items: &[&str]| Attr {
        path: "repr".to_string(),
        nested: items.iter().map(|s| s.to_string()).collect(),
        plain_list: true,
    };
    assert!(has_repr_c(&vec![repr(&["C"])]));
    assert!(has_repr_c(&vec![
        Attr { path: "doc".to_string(), nested: vec![], plain_list: false },
        repr(&["C"])
    ]));
    assert!(!has_repr_c(&vec![repr(&["transparent"])]));
    // any nested `C` asks for the C layout
    assert!(has_repr_c(&vec![repr(&["C", "packed"])]));
    assert!(has_repr_c(&vec![repr(&["packed", "C"])]));
    assert!(!has_repr_c(&vec![]));
}

fn ident(s: &str) -> Token {
    Token::Ident(s.to_string())
}

fn strings(v: &[&str]) -> Vec<String> {
    v.iter().map(|s| s.to_string()).collect()
}

#[test]
fn listener_callbacks() {
    let ok = parse_callback(&vec![ident("callback"), Token::Eq, ident("new_output")]);
    assert_eq!(ok, Ok(CallbackPath { leading_colon: false, segments: strings(&["new_output"]), data: None }));
    let long = parse_callback(&vec![
        ident("callback"),
        Token::Eq,
        Token::PathSep,
        ident("a"),
        Token::PathSep,
        ident("b"),
    ]);
    assert_eq!(long, Ok(CallbackPath { leading_colon: true, segments: strings(&["a", "b"]), data: None }));
    let lit = parse_callback(&vec![Token::Lit("without_data_test_cb".to_string())]);
    assert_eq!(
        lit,
        Ok(CallbackPath { leading_colon: false, segments: strings(&["without_data_test_cb"]), data: None })
    );
    let with_data = parse_callback(&vec![Token::Lit("cb".to_string()), Token::Comma, ident("Data")]);
    assert_eq!(
        with_data,
        Ok(CallbackPath { leading_colon: false, segments: strings(&["cb"]), data: Some("Data".to_string()) })
    );
    let path_data = parse_callback(&vec![
        Token::Lit("cb".to_string()),
        Token::Comma,
        Token::PathSep,
        ident("a"),
        Token::PathSep,
        ident("B"),
    ]);
    assert_eq!(path_data.unwrap().data, Some("::a::B".to_string()));
    assert_eq!(
        parse_callback(&vec![Token::Lit("cb".to_string()), ident("Data")]),
        Err(err("expected `,`"))
    );
    assert_eq!(parse_callback(&vec![]), Err(err("expected identifier")));
    assert_eq!(
        parse_callback(&vec![ident("handler"), Token::Eq, ident("f")]),
        Err(err("expected `callback`"))
    );
    assert_eq!(parse_callback(&vec![ident("callback"), ident("f")]), Err(err("expected `=`")));
    assert_eq!(parse_callback(&vec![ident("callback"), Token::Eq]), Err(err("expected identifier")));
    assert_eq!(
        parse_callback(&vec![ident("callback"), Token::Eq, ident("f"), ident("g")]),
        Err(err("unexpected token"))
    );
    assert_eq!(
        parse_callback(&vec![ident("callback"), Token::Eq, ident("f"), Token::PathSep]),
        Err(err("expected identifier"))
    );
}

#[test]
fn trampoline_calls() {
    assert_eq!(trampoline_call(&None), TrampolineCall::NoData);
    assert_eq!(
        trampoline_call(&Some("Output".to_string())),
        TrampolineCall::PinnedData("Output".to_string())
    );
}

fn listener_field(name: &str, callback: &str, ty: Ty) -> Field {
    Field {
        ident: Some(name.to_string()),
        ty,
        attrs: vec![
            FieldAttr { path: "doc".to_string(), args: vec![] },
            FieldAttr {
                path: "listener".to_string(),
                args: vec![ident("callback"), Token::Eq, ident(callback)],
            },
        ],
    }
}

#[test]
fn listener_derive_plans_listener_fields_in_order() {
    let output_listener = path(vec![seg(
        "Listener",
        PathArgs::AngleBracketed(vec![GenericArg::Type("Output".to_string())]),
    )]);
    let fields = vec![
        listener_field("new_output", "on_new_output", output_listener),
        Field { ident: Some("count".to_string()), ty: path(vec![seg("u32", PathArgs::Bare)]), attrs: vec![] },
        listener_field("destroy", "on_destroy", path(vec![seg("Listener", PathArgs::Bare)])),
    ];
    let plans = derive_wl_listeners("WlzServer", &DeriveData::Struct(Fields::Named(fields))).unwrap();
    assert_eq!(
        plans,
        vec![
            ListenerPlan {
                field: "new_output".to_string(),
                callback: "on_new_output".to_string(),
                call: TrampolineCall::PinnedData("Output".to_string()),
                trampoline: "__wlz_server_new_output_trampoline".to_string(),
                init: "__init_new_output".to_string(),
            },
            ListenerPlan {
                field: "destroy".to_string(),
                callback: "on_destroy".to_string(),
                call: TrampolineCall::NoData,
                trampoline: "__wlz_server_destroy_trampoline".to_string(),
                init: "__init_destroy".to_string(),
            },
        ]
    );
    let none = derive_wl_listeners("Plain", &DeriveData::Struct(Fields::Unit)).unwrap();
    assert!(none.is_empty());
}

#[test]
fn listener_derive_refusals() {
    assert_eq!(
        derive_wl_listeners("E", &DeriveData::Enum),
        Err(err("WlListeners only works on structs"))
    );
    let fields = vec![
        listener_field("a", "on_a", path(vec![seg("Listener", PathArgs::Bare)])),
        listener_field("b", "on_b", path(vec![seg("Signal", PathArgs::Bare)])),
        listener_field("c", "on_c", Ty::Other),
    ];
    assert_eq!(
        derive_wl_listeners("S", &DeriveData::Struct(Fields::Named(fields))),
        Err(err("expected Listener"))
    );
    let mut bad_callback = listener_field("a", "on_a", path(vec![seg("Listener", PathArgs::Bare)]));
    bad_callback.attrs[1].args = vec![ident("cb"), Token::Eq, ident("on_a")];
    assert_eq!(
        derive_wl_listeners("S", &DeriveData::Struct(Fields::Named(vec![bad_callback]))),
        Err(err("expected `callback`"))
    );
}

fn function(args: Vec<FnArg>, ret: ReturnTy) -> ItemModel {
    ItemModel { is_fn: true, vis: "pub".to_string(), name: "init".to_string(), args, ret }
}

#[test]
fn initialization_plans() {
    let args = vec![
        FnArg::Receiver,
        FnArg::Typed(Some("a".to_string()), "u32".to_string()),
        FnArg::Typed(Some("b".to_string()), "&str".to_string()),
    ];
    let result = ReturnTy::Type(path(vec![seg(
        "Result",
        PathArgs::AngleBracketed(vec![GenericArg::Type("()".to_string()), GenericArg::Type("WlzError".to_string())]),
    )]));
    let plan = initialization(true, &function(args.clone(), result)).unwrap();
    assert_eq!(plan.vis, "pub");
    assert_eq!(plan.call, "init");
    assert_eq!(
        plan.args,
        vec![
            TypedArg { name: "a".to_string(), ty: "u32".to_string() },
            TypedArg { name: "b".to_string(), ty: "&str".to_string() }
        ]
    );
    assert_eq!(plan.ret, InitReturn::Result("WlzError".to_string()));
    assert!(plan.stores_result);
    assert_eq!(
        plan.source,
        "/// In place initialization\n\
         pub fn initialize<'__lifetime>(mut uninit: ::std::pin::Pin<&'__lifetime mut ::std::mem::MaybeUninit<Self>>, a: u32, b: &str) -> Result<::std::pin::Pin<&'__lifetime mut Self>, WlzError> {\n\
         \x20   let mut this = unsafe { uninit.map_unchecked_mut(|v| v.assume_init_mut()) };\n\
         \x20   this.as_mut().__initialize_callbacks();\n\
         \x20   let result = this.as_mut().init(a, b);\n\
         \x20   result.map(|_| this)\n\
         }\n"
    );
    let option = ReturnTy::Type(path(vec![seg("Option", PathArgs::AngleBracketed(vec![GenericArg::Type("()".to_string())]))]));
    let plan = initialization(true, &function(vec![FnArg::Receiver], option)).unwrap();
    assert_eq!(plan.ret, InitReturn::Option);
    assert!(plan.stores_result);
    assert!(plan.args.is_empty());
    let plain = initialization(true, &function(args, ReturnTy::Default)).unwrap();
    assert_eq!(plain.ret, InitReturn::Plain);
    assert!(!plain.stores_result);
    let private = ItemModel { vis: String::new(), ..function(vec![FnArg::Receiver], ReturnTy::Type(Ty::Unit)) };
    let plan = initialization(true, &private).unwrap();
    assert_eq!(
        plan.source,
        "/// In place initialization\n\
         fn initialize<'__lifetime>(mut uninit: ::std::pin::Pin<&'__lifetime mut ::std::mem::MaybeUninit<Self>>) -> ::std::pin::Pin<&'__lifetime mut Self> {\n\
         \x20   let mut this = unsafe { uninit.map_unchecked_mut(|v| v.assume_init_mut()) };\n\
         \x20   this.as_mut().__initialize_callbacks();\n\
         \x20   this.as_mut().init();\n\
         \x20   this\n\
         }\n"
    );
}

#[test]
fn initialization_refusals() {
    let f = function(vec![FnArg::Receiver], ReturnTy::Default);
    assert_eq!(initialization(false, &f), Err(err("initialization takes no arguments")));
    let not_fn = ItemModel { is_fn: false, ..f.clone() };
    assert_eq!(initialization(true, &not_fn), Err(err("initialization can only be used on functions")));
    let u32_ret = function(vec![FnArg::Receiver], ReturnTy::Type(path(vec![seg("u32", PathArgs::Bare)])));
    assert_eq!(
        initialization(true, &u32_ret),
        Err(err("must either be Result<(), T>, Option<()> or ()"))
    );
}

fn tuple_struct(ty: Ty) -> DeriveData {
    DeriveData::Struct(Fields::Unnamed(vec![Field { ident: None, ty, attrs: vec![] }]))
}

#[test]
fn ptr_wrapper_derive() {
    let nn = path(vec![seg(
        "NonNull",
        PathArgs::AngleBracketed(vec![GenericArg::Type("wlr_output".to_string())]),
    )]);
    let PtrWrapperPlan { inner, source } = derive_ptr_wrapper("Output", &tuple_struct(nn)).unwrap();
    assert_eq!(inner, "wlr_output");
    assert!(source.starts_with("impl Output {\n    pub fn as_ptr(&self) -> *mut wlr_output {\n"));
    assert!(source.contains("impl ::core::convert::TryFrom<*mut wlr_output> for Output {"));
    assert!(source.contains("::std::ptr::NonNull::new(value).map(Self).ok_or(())"));
    assert!(source.ends_with("impl ::core::convert::From<NonNull<wlr_output>> for Output {\n    fn from(value: NonNull<wlr_output>) -> Self {\n        Self(value)\n    }\n}\n"));
    assert_eq!(
        derive_ptr_wrapper("Output", &tuple_struct(path(vec![seg("Box", PathArgs::Bare)]))),
        Err(err("Expected NonNull<T>"))
    );
    assert_eq!(
        derive_ptr_wrapper("Output", &DeriveData::Struct(Fields::Named(vec![]))),
        Err(err("Output is not a tuple struct! PtrWrapper may only be used on tuple structs"))
    );
    assert_eq!(
        derive_ptr_wrapper("Output", &DeriveData::Enum),
        Err(err("Output is not a struct! PtrWrapper may only be used on structs"))
    );
}

#[test]
fn from_ptr_derive() {
    let ty = path(vec![seg("wl_listener", PathArgs::Bare)]);
    let data = tuple_struct(ty.clone());
    assert_eq!(from_ptr("Link", &data), Ok(&ty));
    assert_eq!(
        from_ptr("Link", &DeriveData::Struct(Fields::Unit)),
        Err(err("Link is not a tuple struct! FromPtr may only be used on tuple structs"))
    );
    assert_eq!(
        from_ptr("Link", &DeriveData::Union),
        Err(err("Link is not a struct! FromPtr may only be used on structs"))
    );
}

#[test]
fn c_ptr_needs_repr_c() {
    let repr_c = Attr { path: "repr".to_string(), nested: strings(&["C"]), plain_list: true };
    assert_eq!(c_ptr(&vec![repr_c]), Ok(()));
    assert_eq!(c_ptr(&vec![]), Err(err("c_ptr can only be used with repr(\"C\")")));
    let transparent = Attr { path: "repr".to_string(), nested: strings(&["transparent"]), plain_list: true };
    assert_eq!(c_ptr(&vec![transparent]), Err(err("c_ptr can only be used with repr(\"C\")")));
}

fn lit_listener_field(name: &str, args: Vec<Token>) -> Field {
    Field {
        ident: Some(name.to_string()),
        ty: path(vec![seg("Listener", PathArgs::Bare)]),
        attrs: vec![
            FieldAttr { path: "listener".to_string(), args },
            FieldAttr { path: "pin".to_string(), args: vec![] },
        ],
    }
}

fn plain_field(name: &str) -> Field {
    Field { ident: Some(name.to_string()), ty: path(vec![seg("u32", PathArgs::Bare)]), attrs: vec![] }
}

#[test]
fn listener_derive_reads_string_callbacks_with_their_data() {
    let fields = vec![
        plain_field("num_a"),
        plain_field("num_b"),
        lit_listener_field(
            "with_data_test",
            vec![Token::Lit("with_data_test_cb".to_string()), Token::Comma, ident("Data")],
        ),
        lit_listener_field("without_data_test", vec![Token::Lit("without_data_test_cb".to_string())]),
        lit_listener_field("destroy", vec![Token::Lit("destroy_cb".to_string())]),
        plain_field("num_c"),
        plain_field("num_d"),
        plain_field("counter"),
    ];
    let data = DeriveData::Struct(Fields::Named(fields));
    let plans = derive_wl_listeners("ListenerTest", &data).unwrap();
    assert_eq!(plans.len(), 3);
    assert_eq!(plans[0].callback, "with_data_test_cb");
    assert_eq!(plans[0].call, TrampolineCall::PinnedData("Data".to_string()));
    assert_eq!(plans[0].trampoline, "__listener_test_with_data_test_trampoline");
    assert_eq!(plans[1].callback, "without_data_test_cb");
    assert_eq!(plans[1].call, TrampolineCall::NoData);
    assert_eq!(plans[2].init, "__init_destroy");

    let source = wl_listeners("ListenerTest", "", "", "", &data).unwrap();
    assert_eq!(source, listeners_impl_source("ListenerTest", "", "", "", &plans));
    assert!(source.starts_with("impl ListenerTest  {\n/// Trampoline for to be used in C callbacks.\nunsafe extern \"C\" fn __listener_test_with_data_test_trampoline(\n"));
    assert!(source.contains(
        "    if listener.is_null() {\n        crate::error!(\"failed listener callback, listener is NULL!\");\n        return;\n    }\n"
    ));
    assert!(source.contains(".sub(::memoffset::offset_of!(ListenerTest, with_data_test))"));
    assert!(source.contains(
        "}.with_data_test_cb(::std::pin::Pin::new_unchecked((data as *mut Data).as_mut().unwrap()));\n"
    ));
    assert!(source.contains("}.without_data_test_cb();\n"));
    assert!(source.contains(
        "fn __init_destroy(mut self: ::std::pin::Pin<&mut Self>) {\n    self.project().destroy.init(Self::__listener_test_destroy_trampoline);\n}\n"
    ));
    assert!(source.ends_with(
        "fn __initialize_callbacks(mut self: ::std::pin::Pin<&mut Self>) {\n    self.as_mut().__init_with_data_test();\n    self.as_mut().__init_without_data_test();\n    self.as_mut().__init_destroy();\n}\n}\n"
    ));
    assert_eq!(
        wl_listeners("E", "", "", "", &DeriveData::Enum),
        Err(err("WlListeners only works on structs"))
    );
}
