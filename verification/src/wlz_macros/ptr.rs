use vstd::prelude::*;

use super::syntax::{
    has_part, lemma_part, same_text, Attr, DeriveData, Field, Fields, GenericArg, MacroError, PathArgs, Segment, Ty,
};

verus! {

/// The inner type of a `NonNull<T>` field: only a path whose last segment
/// is `NonNull` with a first type argument has one.
pub open spec fn nonnull_inner_spec(ty: Ty, r: Result<String, MacroError>) -> bool {
    match ty {
        Ty::Path(segs) => {
            let last = segs@[segs.len() - 1];
            if last.ident@ != "NonNull"@ {
                r matches Err(e) && e.says("Expected NonNull<T>"@)
            } else {
                match last.arguments {
                    PathArgs::AngleBracketed(args) => if args.len() > 0 && args@[0] is Type {
                        r matches Ok(t) && t@ == args@[0]->Type_0@
                    } else {
                        r matches Err(e) && e.says("Expected NonNull<T>"@)
                    },
                    _ => r matches Err(e) && e.says("Expected NonNull<T>"@),
                }
            }
        },
        _ => r matches Err(e) && e.says("Expected NonNull<T>"@),
    }
}

/// The inner type of a `NonNull<T>` field (a path type has at least one
/// segment; the derive unwraps the last).
pub fn extract_nonnull_inner(ty: &Ty) -> (r: Result<String, MacroError>)
    requires
        ty matches Ty::Path(segs) ==> segs.len() > 0,
    ensures
        nonnull_inner_spec(*ty, r),
{
    match ty {
        Ty::Path(segs) => {
            let last: &Segment = &segs[segs.len() - 1];
            if !same_text(&last.ident, "NonNull") {
                return Err(MacroError { message: String::from_str("Expected NonNull<T>") });
            }
            match &last.arguments {
                PathArgs::AngleBracketed(args) => {
                    if args.len() > 0 {
                        match &args[0] {
                            GenericArg::Type(t) => {
                                return Ok(t.clone());
                            },
                            GenericArg::Other => {},
                        }
                    }
                },
                _ => {},
            }
            Err(MacroError { message: String::from_str("Expected NonNull<T>") })
        },
        _ => Err(MacroError { message: String::from_str("Expected NonNull<T>") }),
    }
}

/// An attribute asks for the C layout: it is `repr` and one of its nested
/// items is `C`, as in `#[repr(C)]` or `#[repr(C, packed)]`.
pub open spec fn repr_c(a: Attr) -> bool {
    &&& a.path@ == "repr"@
    &&& exists|j: int| 0 <= j < a.nested.len() && (#[trigger] a.nested@[j])@ == "C"@
}

/// Whether one of the nested items of an attribute is `C`.
fn nests_c(a: &Attr) -> (b: bool)
    ensures
        b == exists|j: int| 0 <= j < a.nested.len() && (#[trigger] a.nested@[j])@ == "C"@,
{
    let mut j: usize = 0;
    while j < a.nested.len()
        invariant
            0 <= j <= a.nested@.len(),
            forall|k: int| 0 <= k < j ==> (#[trigger] a.nested@[k])@ != "C"@,
        decreases a.nested@.len() - j,
    {
        if same_text(&a.nested[j], "C") {
            return true;
        }
        j = j + 1;
    }
    false
}

/// Every `repr` attribute read before the first that asks for the C layout
/// has plain arguments (reading one that has not is refused by a panic).
pub open spec fn repr_readable(attrs: Seq<Attr>) -> bool {
    forall|i: int|
        0 <= i < attrs.len() && (#[trigger] attrs[i]).path@ == "repr"@ && !attrs[i].plain_list
            ==> exists|j: int| 0 <= j < i && repr_c(#[trigger] attrs[j])
}

/// Whether the attributes of a struct ask for the C layout.
pub fn has_repr_c(attrs: &Vec<Attr>) -> (b: bool)
    requires
        repr_readable(attrs@),
    ensures
        b == exists|i: int| 0 <= i < attrs.len() && repr_c(#[trigger] attrs@[i]),
{
    let mut i: usize = 0;
    while i < attrs.len()
        invariant
            0 <= i <= attrs@.len(),
            forall|j: int| 0 <= j < i ==> !repr_c(#[trigger] attrs@[j]),
        decreases attrs@.len() - i,
    {
        let a = &attrs[i];
        if same_text(&a.path, "repr") && nests_c(a) {
            assert(repr_c(attrs@[i as int]));
            return true;
        }
        i = i + 1;
    }
    false
}

/// The `c_ptr` attribute: the struct must ask for the C layout.
pub fn c_ptr(attrs: &Vec<Attr>) -> (r: Result<(), MacroError>)
    requires
        repr_readable(attrs@),
    ensures
        r is Ok <==> exists|i: int| 0 <= i < attrs.len() && repr_c(#[trigger] attrs@[i]),
        r matches Err(e) ==> e.says("c_ptr can only be used with repr(\"C\")"@),
{
    if has_repr_c(attrs) {
        Ok(())
    } else {
        Err(MacroError { message: String::from_str("c_ptr can only be used with repr(\"C\")") })
    }
}

/// The message of a derive applied to the wrong kind of item:
/// `{name}{what}{derive}{tail}`.
fn refusal(name: &str, what: &str, derive: &str, tail: &str) -> (e: MacroError)
    ensures
        e.message@ == name@ + what@ + derive@ + tail@,
{
    let mut m = String::from_str(name);
    m.append(what);
    m.append(derive);
    m.append(tail);
    MacroError { message: m }
}

/// The message that `{name}` is not a struct, for the derive `derive`.
pub open spec fn not_struct(name: Seq<char>, derive: Seq<char>) -> Seq<char> {
    name + " is not a struct! "@ + derive + " may only be used on structs"@
}

/// The message that `{name}` is not a tuple struct, for the derive `derive`.
pub open spec fn not_tuple_struct(name: Seq<char>, derive: Seq<char>) -> Seq<char> {
    name + " is not a tuple struct! "@ + derive + " may only be used on tuple structs"@
}

/// The derive reads the first field of a tuple struct, which has one.
pub open spec fn tuple_fields_nonempty(data: DeriveData) -> bool {
    data matches DeriveData::Struct(Fields::Unnamed(v)) ==> v.len() > 0
}

/// The first field of a tuple struct, or the derive's refusal: `name` is
/// not a struct, or not a tuple struct.
fn first_tuple_field<'a>(name: &str, data: &'a DeriveData, derive: &str) -> (r: Result<&'a Field, MacroError>)
    requires
        tuple_fields_nonempty(*data),
    ensures
        match *data {
            DeriveData::Struct(Fields::Unnamed(v)) => r matches Ok(f) && *f == v@[0],
            DeriveData::Struct(_) => r matches Err(e) && e.message@ == not_tuple_struct(name@, derive@),
            _ => r matches Err(e) && e.message@ == not_struct(name@, derive@),
        },
{
    match data {
        DeriveData::Struct(Fields::Unnamed(v)) => Ok(&v[0]),
        DeriveData::Struct(_) => Err(
            refusal(name, " is not a tuple struct! ", derive, " may only be used on tuple structs"),
        ),
        _ => Err(refusal(name, " is not a struct! ", derive, " may only be used on structs")),
    }
}

/// The source of what `PtrWrapper` generates for the struct `name` around
/// a `NonNull<inner>`: `as_ptr`, `as_ref`, `as_mut` and `empty`, and the
/// conversions from a reference to a pointer, from a pointer (failing on
/// NULL) and from a `NonNull`.
pub open spec fn ptr_wrapper_text(name: Seq<char>, inner: Seq<char>) -> Seq<char> {
    ("impl "@ + name + " {\n    "@) + ("pub fn as_ptr(&self) -> *mut "@ + inner + " {\n        self.0.as_ptr()\n    }"@) + "\n\n    "@ + ("pub fn as_ref<'a>(&self) -> &'a "@ + inner + " {\n        unsafe { self.0.as_ptr().as_ref().unwrap() }\n    }"@) + "\n\n    "@ + ("pub fn as_mut<'a>(&mut self) -> &'a mut "@ + inner + " {\n        unsafe { self.0.as_ptr().as_mut().unwrap() }\n    }"@) + "\n\n    "@ + ("/// # Safety\n    /// This creates a dangling pointer to the object, MUST BE INITIALIZED LATER!\n    pub unsafe fn empty() -> "@ + name + " {\n        Self(::std::ptr::NonNull::dangling())\n    }"@) + "\n}\n\n"@ + ("impl ::core::convert::From<&"@ + name + "> for *mut "@ + inner + " {\n    fn from(value: &"@ + name + ") -> *mut "@ + inner + " {\n        value.0.as_ptr()\n    }\n}"@) + "\n\n"@ + ("impl ::core::convert::TryFrom<*mut "@ + inner + "> for "@ + name + " {\n    type Error = ();\n\n    fn try_from(value: *mut "@ + inner + ") -> Result<Self, Self::Error> {\n        ::std::ptr::NonNull::new(value).map(Self).ok_or(())\n    }\n}"@) + "\n\n"@ + ("impl ::core::convert::From<NonNull<"@ + inner + ">> for "@ + name + " {\n    fn from(value: NonNull<"@ + inner + ">) -> Self {\n        Self(value)\n    }\n}"@) + "\n"@
}

fn ptr_wrapper_source(name: &str, inner: &String) -> (r: String)
    ensures
        r@ == ptr_wrapper_text(name@, inner@),
{
    let mut part1 = String::from_str("impl ");
    part1.append(name);
    part1.append(" {\n    ");
    let mut r = String::from_str(part1.as_str());
    let mut part2 = String::from_str("pub fn as_ptr(&self) -> *mut ");
    part2.append(inner.as_str());
    part2.append(" {\n        self.0.as_ptr()\n    }");
    r.append(part2.as_str());
    r.append("\n\n    ");
    let mut part3 = String::from_str("pub fn as_ref<'a>(&self) -> &'a ");
    part3.append(inner.as_str());
    part3.append(" {\n        unsafe { self.0.as_ptr().as_ref().unwrap() }\n    }");
    r.append(part3.as_str());
    r.append("\n\n    ");
    let mut part4 = String::from_str("pub fn as_mut<'a>(&mut self) -> &'a mut ");
    part4.append(inner.as_str());
    part4.append(" {\n        unsafe { self.0.as_ptr().as_mut().unwrap() }\n    }");
    r.append(part4.as_str());
    r.append("\n\n    ");
    let mut part5 = String::from_str("/// # Safety\n    /// This creates a dangling pointer to the object, MUST BE INITIALIZED LATER!\n    pub unsafe fn empty() -> ");
    part5.append(name);
    part5.append(" {\n        Self(::std::ptr::NonNull::dangling())\n    }");
    r.append(part5.as_str());
    r.append("\n}\n\n");
    let mut part6 = String::from_str("impl ::core::convert::From<&");
    part6.append(name);
    part6.append("> for *mut ");
    part6.append(inner.as_str());
    part6.append(" {\n    fn from(value: &");
    part6.append(name);
    part6.append(") -> *mut ");
    part6.append(inner.as_str());
    part6.append(" {\n        value.0.as_ptr()\n    }\n}");
    r.append(part6.as_str());
    r.append("\n\n");
    let mut part7 = String::from_str("impl ::core::convert::TryFrom<*mut ");
    part7.append(inner.as_str());
    part7.append("> for ");
    part7.append(name);
    part7.append(" {\n    type Error = ();\n\n    fn try_from(value: *mut ");
    part7.append(inner.as_str());
    part7.append(") -> Result<Self, Self::Error> {\n        ::std::ptr::NonNull::new(value).map(Self).ok_or(())\n    }\n}");
    r.append(part7.as_str());
    r.append("\n\n");
    let mut part8 = String::from_str("impl ::core::convert::From<NonNull<");
    part8.append(inner.as_str());
    part8.append(">> for ");
    part8.append(name);
    part8.append(" {\n    fn from(value: NonNull<");
    part8.append(inner.as_str());
    part8.append(">) -> Self {\n        Self(value)\n    }\n}");
    r.append(part8.as_str());
    r.append("\n");
    r
}

/// What `PtrWrapper` generates, for every struct name and pointee type:
/// an impl of the struct in which `as_ptr` returns the wrapped pointer,
/// `as_ref` and `as_mut` borrow what it points at and `empty` wraps a
/// dangling pointer; and the conversions that give the wrapped pointer
/// back, wrap a pointer (refusing NULL), and wrap a `NonNull`.
pub proof fn law_ptr_wrapper_generates(name: Seq<char>, inner: Seq<char>)
    ensures
        has_part(ptr_wrapper_text(name, inner), "impl "@ + name + " {\n    "@),
        has_part(ptr_wrapper_text(name, inner), "pub fn as_ptr(&self) -> *mut "@ + inner + " {\n        self.0.as_ptr()\n    }"@),
        has_part(ptr_wrapper_text(name, inner), "pub fn as_ref<'a>(&self) -> &'a "@ + inner + " {\n        unsafe { self.0.as_ptr().as_ref().unwrap() }\n    }"@),
        has_part(ptr_wrapper_text(name, inner), "pub fn as_mut<'a>(&mut self) -> &'a mut "@ + inner + " {\n        unsafe { self.0.as_ptr().as_mut().unwrap() }\n    }"@),
        has_part(ptr_wrapper_text(name, inner), "/// # Safety\n    /// This creates a dangling pointer to the object, MUST BE INITIALIZED LATER!\n    pub unsafe fn empty() -> "@ + name + " {\n        Self(::std::ptr::NonNull::dangling())\n    }"@),
        has_part(ptr_wrapper_text(name, inner), "impl ::core::convert::From<&"@ + name + "> for *mut "@ + inner + " {\n    fn from(value: &"@ + name + ") -> *mut "@ + inner + " {\n        value.0.as_ptr()\n    }\n}"@),
        has_part(ptr_wrapper_text(name, inner), "impl ::core::convert::TryFrom<*mut "@ + inner + "> for "@ + name + " {\n    type Error = ();\n\n    fn try_from(value: *mut "@ + inner + ") -> Result<Self, Self::Error> {\n        ::std::ptr::NonNull::new(value).map(Self).ok_or(())\n    }\n}"@),
        has_part(ptr_wrapper_text(name, inner), "impl ::core::convert::From<NonNull<"@ + inner + ">> for "@ + name + " {\n    fn from(value: NonNull<"@ + inner + ">) -> Self {\n        Self(value)\n    }\n}"@),
{
    {
        let pre = Seq::<char>::empty();
        let x = ("impl "@ + name + " {\n    "@);
        assert(pre + x =~= x);
        let q = pre + x;
        let post0 = ("pub fn as_ptr(&self) -> *mut "@ + inner + " {\n        self.0.as_ptr()\n    }"@);
        let t1 = "\n\n    "@;
        vstd::seq_lib::lemma_concat_associative(q, post0, t1);
        let post1 = post0 + t1;
        let t2 = ("pub fn as_ref<'a>(&self) -> &'a "@ + inner + " {\n        unsafe { self.0.as_ptr().as_ref().unwrap() }\n    }"@);
        vstd::seq_lib::lemma_concat_associative(q, post1, t2);
        let post2 = post1 + t2;
        let t3 = "\n\n    "@;
        vstd::seq_lib::lemma_concat_associative(q, post2, t3);
        let post3 = post2 + t3;
        let t4 = ("pub fn as_mut<'a>(&mut self) -> &'a mut "@ + inner + " {\n        unsafe { self.0.as_ptr().as_mut().unwrap() }\n    }"@);
        vstd::seq_lib::lemma_concat_associative(q, post3, t4);
        let post4 = post3 + t4;
        let t5 = "\n\n    "@;
        vstd::seq_lib::lemma_concat_associative(q, post4, t5);
        let post5 = post4 + t5;
        let t6 = ("/// # Safety\n    /// This creates a dangling pointer to the object, MUST BE INITIALIZED LATER!\n    pub unsafe fn empty() -> "@ + name + " {\n        Self(::std::ptr::NonNull::dangling())\n    }"@);
        vstd::seq_lib::lemma_concat_associative(q, post5, t6);
        let post6 = post5 + t6;
        let t7 = "\n}\n\n"@;
        vstd::seq_lib::lemma_concat_associative(q, post6, t7);
        let post7 = post6 + t7;
        let t8 = ("impl ::core::convert::From<&"@ + name + "> for *mut "@ + inner + " {\n    fn from(value: &"@ + name + ") -> *mut "@ + inner + " {\n        value.0.as_ptr()\n    }\n}"@);
        vstd::seq_lib::lemma_concat_associative(q, post7, t8);
        let post8 = post7 + t8;
        let t9 = "\n\n"@;
        vstd::seq_lib::lemma_concat_associative(q, post8, t9);
        let post9 = post8 + t9;
        let t10 = ("impl ::core::convert::TryFrom<*mut "@ + inner + "> for "@ + name + " {\n    type Error = ();\n\n    fn try_from(value: *mut "@ + inner + ") -> Result<Self, Self::Error> {\n        ::std::ptr::NonNull::new(value).map(Self).ok_or(())\n    }\n}"@);
        vstd::seq_lib::lemma_concat_associative(q, post9, t10);
        let post10 = post9 + t10;
        let t11 = "\n\n"@;
        vstd::seq_lib::lemma_concat_associative(q, post10, t11);
        let post11 = post10 + t11;
        let t12 = ("impl ::core::convert::From<NonNull<"@ + inner + ">> for "@ + name + " {\n    fn from(value: NonNull<"@ + inner + ">) -> Self {\n        Self(value)\n    }\n}"@);
        vstd::seq_lib::lemma_concat_associative(q, post11, t12);
        let post12 = post11 + t12;
        let t13 = "\n"@;
        vstd::seq_lib::lemma_concat_associative(q, post12, t13);
        let post13 = post12 + t13;
        assert(ptr_wrapper_text(name, inner) == pre + x + post13);
        lemma_part(pre, x, post13);
    }
    {
        let pre = ("impl "@ + name + " {\n    "@);
        let x = ("pub fn as_ptr(&self) -> *mut "@ + inner + " {\n        self.0.as_ptr()\n    }"@);
        let q = pre + x;
        let post0 = "\n\n    "@;
        let t1 = ("pub fn as_ref<'a>(&self) -> &'a "@ + inner + " {\n        unsafe { self.0.as_ptr().as_ref().unwrap() }\n    }"@);
        vstd::seq_lib::lemma_concat_associative(q, post0, t1);
        let post1 = post0 + t1;
        let t2 = "\n\n    "@;
        vstd::seq_lib::lemma_concat_associative(q, post1, t2);
        let post2 = post1 + t2;
        let t3 = ("pub fn as_mut<'a>(&mut self) -> &'a mut "@ + inner + " {\n        unsafe { self.0.as_ptr().as_mut().unwrap() }\n    }"@);
        vstd::seq_lib::lemma_concat_associative(q, post2, t3);
        let post3 = post2 + t3;
        let t4 = "\n\n    "@;
        vstd::seq_lib::lemma_concat_associative(q, post3, t4);
        let post4 = post3 + t4;
        let t5 = ("/// # Safety\n    /// This creates a dangling pointer to the object, MUST BE INITIALIZED LATER!\n    pub unsafe fn empty() -> "@ + name + " {\n        Self(::std::ptr::NonNull::dangling())\n    }"@);
        vstd::seq_lib::lemma_concat_associative(q, post4, t5);
        let post5 = post4 + t5;
        let t6 = "\n}\n\n"@;
        vstd::seq_lib::lemma_concat_associative(q, post5, t6);
        let post6 = post5 + t6;
        let t7 = ("impl ::core::convert::From<&"@ + name + "> for *mut "@ + inner + " {\n    fn from(value: &"@ + name + ") -> *mut "@ + inner + " {\n        value.0.as_ptr()\n    }\n}"@);
        vstd::seq_lib::lemma_concat_associative(q, post6, t7);
        let post7 = post6 + t7;
        let t8 = "\n\n"@;
        vstd::seq_lib::lemma_concat_associative(q, post7, t8);
        let post8 = post7 + t8;
        let t9 = ("impl ::core::convert::TryFrom<*mut "@ + inner + "> for "@ + name + " {\n    type Error = ();\n\n    fn try_from(value: *mut "@ + inner + ") -> Result<Self, Self::Error> {\n        ::std::ptr::NonNull::new(value).map(Self).ok_or(())\n    }\n}"@);
        vstd::seq_lib::lemma_concat_associative(q, post8, t9);
        let post9 = post8 + t9;
        let t10 = "\n\n"@;
        vstd::seq_lib::lemma_concat_associative(q, post9, t10);
        let post10 = post9 + t10;
        let t11 = ("impl ::core::convert::From<NonNull<"@ + inner + ">> for "@ + name + " {\n    fn from(value: NonNull<"@ + inner + ">) -> Self {\n        Self(value)\n    }\n}"@);
        vstd::seq_lib::lemma_concat_associative(q, post10, t11);
        let post11 = post10 + t11;
        let t12 = "\n"@;
        vstd::seq_lib::lemma_concat_associative(q, post11, t12);
        let post12 = post11 + t12;
        assert(ptr_wrapper_text(name, inner) == pre + x + post12);
        lemma_part(pre, x, post12);
    }
    {
        let pre = ("impl "@ + name + " {\n    "@) + ("pub fn as_ptr(&self) -> *mut "@ + inner + " {\n        self.0.as_ptr()\n    }"@) + "\n\n    "@;
        let x = ("pub fn as_ref<'a>(&self) -> &'a "@ + inner + " {\n        unsafe { self.0.as_ptr().as_ref().unwrap() }\n    }"@);
        let q = pre + x;
        let post0 = "\n\n    "@;
        let t1 = ("pub fn as_mut<'a>(&mut self) -> &'a mut "@ + inner + " {\n        unsafe { self.0.as_ptr().as_mut().unwrap() }\n    }"@);
        vstd::seq_lib::lemma_concat_associative(q, post0, t1);
        let post1 = post0 + t1;
        let t2 = "\n\n    "@;
        vstd::seq_lib::lemma_concat_associative(q, post1, t2);
        let post2 = post1 + t2;
        let t3 = ("/// # Safety\n    /// This creates a dangling pointer to the object, MUST BE INITIALIZED LATER!\n    pub unsafe fn empty() -> "@ + name + " {\n        Self(::std::ptr::NonNull::dangling())\n    }"@);
        vstd::seq_lib::lemma_concat_associative(q, post2, t3);
        let post3 = post2 + t3;
        let t4 = "\n}\n\n"@;
        vstd::seq_lib::lemma_concat_associative(q, post3, t4);
        let post4 = post3 + t4;
        let t5 = ("impl ::core::convert::From<&"@ + name + "> for *mut "@ + inner + " {\n    fn from(value: &"@ + name + ") -> *mut "@ + inner + " {\n        value.0.as_ptr()\n    }\n}"@);
        vstd::seq_lib::lemma_concat_associative(q, post4, t5);
        let post5 = post4 + t5;
        let t6 = "\n\n"@;
        vstd::seq_lib::lemma_concat_associative(q, post5, t6);
        let post6 = post5 + t6;
        let t7 = ("impl ::core::convert::TryFrom<*mut "@ + inner + "> for "@ + name + " {\n    type Error = ();\n\n    fn try_from(value: *mut "@ + inner + ") -> Result<Self, Self::Error> {\n        ::std::ptr::NonNull::new(value).map(Self).ok_or(())\n    }\n}"@);
        vstd::seq_lib::lemma_concat_associative(q, post6, t7);
        let post7 = post6 + t7;
        let t8 = "\n\n"@;
        vstd::seq_lib::lemma_concat_associative(q, post7, t8);
        let post8 = post7 + t8;
        let t9 = ("impl ::core::convert::From<NonNull<"@ + inner + ">> for "@ + name + " {\n    fn from(value: NonNull<"@ + inner + ">) -> Self {\n        Self(value)\n    }\n}"@);
        vstd::seq_lib::lemma_concat_associative(q, post8, t9);
        let post9 = post8 + t9;
        let t10 = "\n"@;
        vstd::seq_lib::lemma_concat_associative(q, post9, t10);
        let post10 = post9 + t10;
        assert(ptr_wrapper_text(name, inner) == pre + x + post10);
        lemma_part(pre, x, post10);
    }
    {
        let pre = ("impl "@ + name + " {\n    "@) + ("pub fn as_ptr(&self) -> *mut "@ + inner + " {\n        self.0.as_ptr()\n    }"@) + "\n\n    "@ + ("pub fn as_ref<'a>(&self) -> &'a "@ + inner + " {\n        unsafe { self.0.as_ptr().as_ref().unwrap() }\n    }"@) + "\n\n    "@;
        let x = ("pub fn as_mut<'a>(&mut self) -> &'a mut "@ + inner + " {\n        unsafe { self.0.as_ptr().as_mut().unwrap() }\n    }"@);
        let q = pre + x;
        let post0 = "\n\n    "@;
        let t1 = ("/// # Safety\n    /// This creates a dangling pointer to the object, MUST BE INITIALIZED LATER!\n    pub unsafe fn empty() -> "@ + name + " {\n        Self(::std::ptr::NonNull::dangling())\n    }"@);
        vstd::seq_lib::lemma_concat_associative(q, post0, t1);
        let post1 = post0 + t1;
        let t2 = "\n}\n\n"@;
        vstd::seq_lib::lemma_concat_associative(q, post1, t2);
        let post2 = post1 + t2;
        let t3 = ("impl ::core::convert::From<&"@ + name + "> for *mut "@ + inner + " {\n    fn from(value: &"@ + name + ") -> *mut "@ + inner + " {\n        value.0.as_ptr()\n    }\n}"@);
        vstd::seq_lib::lemma_concat_associative(q, post2, t3);
        let post3 = post2 + t3;
        let t4 = "\n\n"@;
        vstd::seq_lib::lemma_concat_associative(q, post3, t4);
        let post4 = post3 + t4;
        let t5 = ("impl ::core::convert::TryFrom<*mut "@ + inner + "> for "@ + name + " {\n    type Error = ();\n\n    fn try_from(value: *mut "@ + inner + ") -> Result<Self, Self::Error> {\n        ::std::ptr::NonNull::new(value).map(Self).ok_or(())\n    }\n}"@);
        vstd::seq_lib::lemma_concat_associative(q, post4, t5);
        let post5 = post4 + t5;
        let t6 = "\n\n"@;
        vstd::seq_lib::lemma_concat_associative(q, post5, t6);
        let post6 = post5 + t6;
        let t7 = ("impl ::core::convert::From<NonNull<"@ + inner + ">> for "@ + name + " {\n    fn from(value: NonNull<"@ + inner + ">) -> Self {\n        Self(value)\n    }\n}"@);
        vstd::seq_lib::lemma_concat_associative(q, post6, t7);
        let post7 = post6 + t7;
        let t8 = "\n"@;
        vstd::seq_lib::lemma_concat_associative(q, post7, t8);
        let post8 = post7 + t8;
        assert(ptr_wrapper_text(name, inner) == pre + x + post8);
        lemma_part(pre, x, post8);
    }
    {
        let pre = ("impl "@ + name + " {\n    "@) + ("pub fn as_ptr(&self) -> *mut "@ + inner + " {\n        self.0.as_ptr()\n    }"@) + "\n\n    "@ + ("pub fn as_ref<'a>(&self) -> &'a "@ + inner + " {\n        unsafe { self.0.as_ptr().as_ref().unwrap() }\n    }"@) + "\n\n    "@ + ("pub fn as_mut<'a>(&mut self) -> &'a mut "@ + inner + " {\n        unsafe { self.0.as_ptr().as_mut().unwrap() }\n    }"@) + "\n\n    "@;
        let x = ("/// # Safety\n    /// This creates a dangling pointer to the object, MUST BE INITIALIZED LATER!\n    pub unsafe fn empty() -> "@ + name + " {\n        Self(::std::ptr::NonNull::dangling())\n    }"@);
        let q = pre + x;
        let post0 = "\n}\n\n"@;
        let t1 = ("impl ::core::convert::From<&"@ + name + "> for *mut "@ + inner + " {\n    fn from(value: &"@ + name + ") -> *mut "@ + inner + " {\n        value.0.as_ptr()\n    }\n}"@);
        vstd::seq_lib::lemma_concat_associative(q, post0, t1);
        let post1 = post0 + t1;
        let t2 = "\n\n"@;
        vstd::seq_lib::lemma_concat_associative(q, post1, t2);
        let post2 = post1 + t2;
        let t3 = ("impl ::core::convert::TryFrom<*mut "@ + inner + "> for "@ + name + " {\n    type Error = ();\n\n    fn try_from(value: *mut "@ + inner + ") -> Result<Self, Self::Error> {\n        ::std::ptr::NonNull::new(value).map(Self).ok_or(())\n    }\n}"@);
        vstd::seq_lib::lemma_concat_associative(q, post2, t3);
        let post3 = post2 + t3;
        let t4 = "\n\n"@;
        vstd::seq_lib::lemma_concat_associative(q, post3, t4);
        let post4 = post3 + t4;
        let t5 = ("impl ::core::convert::From<NonNull<"@ + inner + ">> for "@ + name + " {\n    fn from(value: NonNull<"@ + inner + ">) -> Self {\n        Self(value)\n    }\n}"@);
        vstd::seq_lib::lemma_concat_associative(q, post4, t5);
        let post5 = post4 + t5;
        let t6 = "\n"@;
        vstd::seq_lib::lemma_concat_associative(q, post5, t6);
        let post6 = post5 + t6;
        assert(ptr_wrapper_text(name, inner) == pre + x + post6);
        lemma_part(pre, x, post6);
    }
    {
        let pre = ("impl "@ + name + " {\n    "@) + ("pub fn as_ptr(&self) -> *mut "@ + inner + " {\n        self.0.as_ptr()\n    }"@) + "\n\n    "@ + ("pub fn as_ref<'a>(&self) -> &'a "@ + inner + " {\n        unsafe { self.0.as_ptr().as_ref().unwrap() }\n    }"@) + "\n\n    "@ + ("pub fn as_mut<'a>(&mut self) -> &'a mut "@ + inner + " {\n        unsafe { self.0.as_ptr().as_mut().unwrap() }\n    }"@) + "\n\n    "@ + ("/// # Safety\n    /// This creates a dangling pointer to the object, MUST BE INITIALIZED LATER!\n    pub unsafe fn empty() -> "@ + name + " {\n        Self(::std::ptr::NonNull::dangling())\n    }"@) + "\n}\n\n"@;
        let x = ("impl ::core::convert::From<&"@ + name + "> for *mut "@ + inner + " {\n    fn from(value: &"@ + name + ") -> *mut "@ + inner + " {\n        value.0.as_ptr()\n    }\n}"@);
        let q = pre + x;
        let post0 = "\n\n"@;
        let t1 = ("impl ::core::convert::TryFrom<*mut "@ + inner + "> for "@ + name + " {\n    type Error = ();\n\n    fn try_from(value: *mut "@ + inner + ") -> Result<Self, Self::Error> {\n        ::std::ptr::NonNull::new(value).map(Self).ok_or(())\n    }\n}"@);
        vstd::seq_lib::lemma_concat_associative(q, post0, t1);
        let post1 = post0 + t1;
        let t2 = "\n\n"@;
        vstd::seq_lib::lemma_concat_associative(q, post1, t2);
        let post2 = post1 + t2;
        let t3 = ("impl ::core::convert::From<NonNull<"@ + inner + ">> for "@ + name + " {\n    fn from(value: NonNull<"@ + inner + ">) -> Self {\n        Self(value)\n    }\n}"@);
        vstd::seq_lib::lemma_concat_associative(q, post2, t3);
        let post3 = post2 + t3;
        let t4 = "\n"@;
        vstd::seq_lib::lemma_concat_associative(q, post3, t4);
        let post4 = post3 + t4;
        assert(ptr_wrapper_text(name, inner) == pre + x + post4);
        lemma_part(pre, x, post4);
    }
    {
        let pre = ("impl "@ + name + " {\n    "@) + ("pub fn as_ptr(&self) -> *mut "@ + inner + " {\n        self.0.as_ptr()\n    }"@) + "\n\n    "@ + ("pub fn as_ref<'a>(&self) -> &'a "@ + inner + " {\n        unsafe { self.0.as_ptr().as_ref().unwrap() }\n    }"@) + "\n\n    "@ + ("pub fn as_mut<'a>(&mut self) -> &'a mut "@ + inner + " {\n        unsafe { self.0.as_ptr().as_mut().unwrap() }\n    }"@) + "\n\n    "@ + ("/// # Safety\n    /// This creates a dangling pointer to the object, MUST BE INITIALIZED LATER!\n    pub unsafe fn empty() -> "@ + name + " {\n        Self(::std::ptr::NonNull::dangling())\n    }"@) + "\n}\n\n"@ + ("impl ::core::convert::From<&"@ + name + "> for *mut "@ + inner + " {\n    fn from(value: &"@ + name + ") -> *mut "@ + inner + " {\n        value.0.as_ptr()\n    }\n}"@) + "\n\n"@;
        let x = ("impl ::core::convert::TryFrom<*mut "@ + inner + "> for "@ + name + " {\n    type Error = ();\n\n    fn try_from(value: *mut "@ + inner + ") -> Result<Self, Self::Error> {\n        ::std::ptr::NonNull::new(value).map(Self).ok_or(())\n    }\n}"@);
        let q = pre + x;
        let post0 = "\n\n"@;
        let t1 = ("impl ::core::convert::From<NonNull<"@ + inner + ">> for "@ + name + " {\n    fn from(value: NonNull<"@ + inner + ">) -> Self {\n        Self(value)\n    }\n}"@);
        vstd::seq_lib::lemma_concat_associative(q, post0, t1);
        let post1 = post0 + t1;
        let t2 = "\n"@;
        vstd::seq_lib::lemma_concat_associative(q, post1, t2);
        let post2 = post1 + t2;
        assert(ptr_wrapper_text(name, inner) == pre + x + post2);
        lemma_part(pre, x, post2);
    }
    {
        let pre = ("impl "@ + name + " {\n    "@) + ("pub fn as_ptr(&self) -> *mut "@ + inner + " {\n        self.0.as_ptr()\n    }"@) + "\n\n    "@ + ("pub fn as_ref<'a>(&self) -> &'a "@ + inner + " {\n        unsafe { self.0.as_ptr().as_ref().unwrap() }\n    }"@) + "\n\n    "@ + ("pub fn as_mut<'a>(&mut self) -> &'a mut "@ + inner + " {\n        unsafe { self.0.as_ptr().as_mut().unwrap() }\n    }"@) + "\n\n    "@ + ("/// # Safety\n    /// This creates a dangling pointer to the object, MUST BE INITIALIZED LATER!\n    pub unsafe fn empty() -> "@ + name + " {\n        Self(::std::ptr::NonNull::dangling())\n    }"@) + "\n}\n\n"@ + ("impl ::core::convert::From<&"@ + name + "> for *mut "@ + inner + " {\n    fn from(value: &"@ + name + ") -> *mut "@ + inner + " {\n        value.0.as_ptr()\n    }\n}"@) + "\n\n"@ + ("impl ::core::convert::TryFrom<*mut "@ + inner + "> for "@ + name + " {\n    type Error = ();\n\n    fn try_from(value: *mut "@ + inner + ") -> Result<Self, Self::Error> {\n        ::std::ptr::NonNull::new(value).map(Self).ok_or(())\n    }\n}"@) + "\n\n"@;
        let x = ("impl ::core::convert::From<NonNull<"@ + inner + ">> for "@ + name + " {\n    fn from(value: NonNull<"@ + inner + ">) -> Self {\n        Self(value)\n    }\n}"@);
        let q = pre + x;
        let post0 = "\n"@;
        assert(ptr_wrapper_text(name, inner) == pre + x + post0);
        lemma_part(pre, x, post0);
    }
}

/// What `PtrWrapper` makes of a tuple struct: the pointee type and the
/// source of the generated impls.
#[derive(Debug, Clone, PartialEq, Eq)]
pub struct PtrWrapperPlan {
    pub inner: String,
    pub source: String,
}

/// The `PtrWrapper` derive: for a tuple struct around a `NonNull<T>`, `T`
/// and the generated impls (see [`ptr_wrapper_text`]); otherwise its
/// refusal.
pub fn derive_ptr_wrapper(name: &str, data: &DeriveData) -> (r: Result<PtrWrapperPlan, MacroError>)
    requires
        tuple_fields_nonempty(*data),
        data matches DeriveData::Struct(Fields::Unnamed(v)) ==> (v@[0].ty matches Ty::Path(segs)
            ==> segs.len() > 0),
    ensures
        match *data {
            DeriveData::Struct(Fields::Unnamed(v)) => match r {
                Ok(p) => nonnull_inner_spec(v@[0].ty, Ok::<String, MacroError>(p.inner))
                    && p.source@ == ptr_wrapper_text(name@, p.inner@),
                Err(e) => nonnull_inner_spec(v@[0].ty, Err::<String, MacroError>(e)),
            },
            DeriveData::Struct(_) => r matches Err(e) && e.message@ == not_tuple_struct(
                name@,
                "PtrWrapper"@,
            ),
            _ => r matches Err(e) && e.message@ == not_struct(name@, "PtrWrapper"@),
        },
{
    match first_tuple_field(name, data, "PtrWrapper") {
        Ok(f) => match extract_nonnull_inner(&f.ty) {
            Ok(inner) => {
                let source = ptr_wrapper_source(name, &inner);
                Ok(PtrWrapperPlan { inner, source })
            },
            Err(e) => Err(e),
        },
        Err(e) => Err(e),
    }
}

/// The `FromPtr` derive: the type of the first field of a tuple struct,
/// to which its pointers convert, or its refusal.
pub fn from_ptr<'a>(name: &str, data: &'a DeriveData) -> (r: Result<&'a Ty, MacroError>)
    requires
        tuple_fields_nonempty(*data),
    ensures
        match *data {
            DeriveData::Struct(Fields::Unnamed(v)) => r matches Ok(t) && *t == v@[0].ty,
            DeriveData::Struct(_) => r matches Err(e) && e.message@ == not_tuple_struct(
                name@,
                "FromPtr"@,
            ),
            _ => r matches Err(e) && e.message@ == not_struct(name@, "FromPtr"@),
        },
{
    match first_tuple_field(name, data, "FromPtr") {
        Ok(f) => Ok(&f.ty),
        Err(e) => Err(e),
    }
}

} // verus!
