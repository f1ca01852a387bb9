//! Names for the modules and clients generated for imported services, and the Rust
//! text of the types that the generated clients use.
use vstd::prelude::*;
use crate::abi_json::{decimal, decimal_chars};
use crate::idl::{rpc_view, rpc_views, spec_convert, FloatTy, IntTy, RpcType, RpcTypeV, SrcTy, TypeRules, UintTy};
use crate::path::string_from_chars;
use crate::syntax_pass::push_str;

verus! {

/// The chars that may stay in a generated identifier: ASCII letters and digits,
/// `_` and `-`.
pub open spec fn is_ident_char(c: char) -> bool {
    ('a' <= c && c <= 'z') || ('A' <= c && c <= 'Z') || ('0' <= c && c <= '9') || c == '_' || c
        == '-'
}

/// The chars of `s` that may stay in an identifier, in order.
pub open spec fn ident_chars(s: Seq<char>) -> Seq<char>
    decreases s.len(),
{
    if s.len() == 0 {
        seq![]
    } else if is_ident_char(s.last()) {
        ident_chars(s.drop_last()).push(s.last())
    } else {
        ident_chars(s.drop_last())
    }
}

/// What is left of an identifier is made of identifier chars only, and sanitizing it
/// again changes nothing.
pub proof fn law_sanitize_idempotent(s: Seq<char>)
    ensures
        forall|i: int| 0 <= i < ident_chars(s).len() ==> is_ident_char(#[trigger] ident_chars(s)[i]),
        ident_chars(ident_chars(s)) == ident_chars(s),
    decreases s.len(),
{
    if s.len() > 0 {
        law_sanitize_idempotent(s.drop_last());
        let t = ident_chars(s.drop_last());
        if is_ident_char(s.last()) {
            assert(t.push(s.last()).drop_last() =~= t);
        }
    }
}

/// Drops every char of `ident` but ASCII letters and digits, `_` and `-`.
pub fn sanitize_ident(ident: &str) -> (r: String)
    ensures
        r@ == ident_chars(ident@),
{
    let chars = crate::path::str_chars(ident);
    let mut kept: Vec<char> = Vec::new();
    let mut i: usize = 0;
    while i < chars.len()
        invariant
            0 <= i <= chars@.len(),
            kept@ == ident_chars(chars@.take(i as int)),
        decreases chars@.len() - i,
    {
        let c = chars[i];
        assert(chars@.take(i + 1).drop_last() =~= chars@.take(i as int));
        if ('a' <= c && c <= 'z') || ('A' <= c && c <= 'Z') || ('0' <= c && c <= '9') || c == '_'
            || c == '-' {
            kept.push(c);
        }
        i = i + 1;
    }
    assert(chars@.take(i as int) =~= chars@);
    crate::path::string_from_chars(kept.as_slice())
}

/// Whether a type is one that a built service's interface can hold: `U256` and `H256`
/// come only from the other IDL's rules.
pub open spec fn build_type(t: RpcTypeV) -> bool
    decreases t,
{
    match t {
        RpcTypeV::U256 | RpcTypeV::H256 => false,
        RpcTypeV::Tuple(ts) => build_types(ts),
        RpcTypeV::Array(e, _) => build_type(*e),
        RpcTypeV::List(e) => build_type(*e),
        RpcTypeV::SetOf(e) => build_type(*e),
        RpcTypeV::Optional(e) => build_type(*e),
        RpcTypeV::MapOf(k, v) => build_type(*k) && build_type(*v),
        RpcTypeV::Result(o, e) => build_type(*o) && build_type(*e),
        _ => true,
    }
}

pub open spec fn build_types(ts: Seq<RpcTypeV>) -> bool
    decreases ts,
{
    if ts.len() == 0 {
        true
    } else {
        build_types(ts.drop_last()) && build_type(ts.last())
    }
}

/// The Rust text of a type of an imported interface: primitives by their names,
/// `Vec<u8>` for bytes, `&str` for strings, `mantle::Address`, a defined type under
/// its namespace, tuples in parentheses, `[T; Nusize]` for arrays, and `Vec`,
/// `std::collections::HashSet`, `std::collections::HashMap`, `Option` and `Result`
/// around the element types.
pub open spec fn spec_type_text(t: RpcTypeV) -> Seq<char>
    decreases t,
{
    match t {
        RpcTypeV::Bool => "bool"@,
        RpcTypeV::U8 => "u8"@,
        RpcTypeV::I8 => "i8"@,
        RpcTypeV::U16 => "u16"@,
        RpcTypeV::I16 => "i16"@,
        RpcTypeV::U32 => "u32"@,
        RpcTypeV::I32 => "i32"@,
        RpcTypeV::U64 => "u64"@,
        RpcTypeV::I64 => "i64"@,
        RpcTypeV::F32 => "f32"@,
        RpcTypeV::F64 => "f64"@,
        RpcTypeV::Bytes => "Vec<u8>"@,
        RpcTypeV::String => "&str"@,
        RpcTypeV::Address => "mantle::Address"@,
        RpcTypeV::U256 => seq![],
        RpcTypeV::H256 => seq![],
        RpcTypeV::Defined { namespace, ty } => match namespace {
            Some(ns) => ns + "::"@ + ty,
            None => ty,
        },
        RpcTypeV::Tuple(ts) => "("@ + spec_tuple_text(ts) + ")"@,
        RpcTypeV::Array(e, n) => "["@ + spec_type_text(*e) + "; "@ + decimal(n as nat) + "usize]"@,
        RpcTypeV::List(e) => "Vec<"@ + spec_type_text(*e) + ">"@,
        RpcTypeV::SetOf(e) => "std::collections::HashSet<"@ + spec_type_text(*e) + ">"@,
        RpcTypeV::MapOf(k, v) => "std::collections::HashMap<"@ + spec_type_text(*k) + ", "@
            + spec_type_text(*v) + ">"@,
        RpcTypeV::Optional(e) => "Option<"@ + spec_type_text(*e) + ">"@,
        RpcTypeV::Result(o, e) => "Result<"@ + spec_type_text(*o) + ", "@ + spec_type_text(*e) + ">"@,
    }
}

/// The texts of the types, separated by `", "`.
pub open spec fn spec_tuple_text(ts: Seq<RpcTypeV>) -> Seq<char>
    decreases ts,
{
    if ts.len() == 0 {
        seq![]
    } else if ts.len() == 1 {
        spec_type_text(ts[0])
    } else {
        spec_tuple_text(ts.drop_last()) + ", "@ + spec_type_text(ts.last())
    }
}

proof fn lemma_build_elem(ts: Seq<RpcType>, i: int)
    requires
        build_types(rpc_views(ts)),
        0 <= i < ts.len(),
    ensures
        build_type(rpc_view(ts[i])),
    decreases ts.len(),
{
    assert(rpc_views(ts).drop_last() =~= rpc_views(ts.drop_last()));
    if i < ts.len() - 1 {
        lemma_build_elem(ts.drop_last(), i);
    }
}

fn type_text_into(ty: &RpcType, out: &mut Vec<char>)
    requires
        build_type(ty@),
    ensures
        final(out)@ == old(out)@ + spec_type_text(ty@),
    decreases ty,
{
    let ghost base = out@;
    match ty {
        RpcType::Bool => push_str(out, "bool"),
        RpcType::U8 => push_str(out, "u8"),
        RpcType::I8 => push_str(out, "i8"),
        RpcType::U16 => push_str(out, "u16"),
        RpcType::I16 => push_str(out, "i16"),
        RpcType::U32 => push_str(out, "u32"),
        RpcType::I32 => push_str(out, "i32"),
        RpcType::U64 => push_str(out, "u64"),
        RpcType::I64 => push_str(out, "i64"),
        RpcType::F32 => push_str(out, "f32"),
        RpcType::F64 => push_str(out, "f64"),
        RpcType::Bytes => push_str(out, "Vec<u8>"),
        RpcType::String => push_str(out, "&str"),
        RpcType::Address => push_str(out, "mantle::Address"),
        RpcType::U256 => {},
        RpcType::H256 => {},
        RpcType::Defined { namespace, ty: name } => {
            match namespace {
                Some(ns) => {
                    push_str(out, ns.as_str());
                    push_str(out, "::");
                    push_str(out, name.as_str());
                    assert(out@ =~= base + (ns@ + "::"@ + name@));
                },
                None => push_str(out, name.as_str()),
            }
        },
        RpcType::Tuple(ts) => {
            push_str(out, "(");
            let ghost vs = rpc_views(ts@);
            let mut i: usize = 0;
            assert(ts@.take(0) =~= Seq::<RpcType>::empty());
            assert(out@ =~= base + "("@ + spec_tuple_text(rpc_views(ts@.take(0))));
            while i < ts.len()
                invariant
                    0 <= i <= ts@.len(),
                    *ty == RpcType::Tuple(*ts),
                    ty@ == RpcTypeV::Tuple(rpc_views(ts@)),
                    build_type(ty@),
                    out@ == base + "("@ + spec_tuple_text(rpc_views(ts@.take(i as int))),
                decreases ts@.len() - i,
            {
                let ghost before = out@;
                let ghost pre = rpc_views(ts@.take(i as int));
                proof {
                    lemma_build_elem(ts@, i as int);
                    assert(ts@.take(i + 1).drop_last() =~= ts@.take(i as int));
                    assert(ts@.take(i + 1).last() == ts@[i as int]);
                    assert(rpc_views(ts@.take(i + 1)) == pre.push(rpc_view(ts@[i as int])));
                    crate::idl::lemma_rpc_views_len(ts@.take(i as int));
                    assert(pre.push(rpc_view(ts@[i as int])).drop_last() =~= pre);
                    assert(decreases_to!(*ty => ts@[i as int]));
                }
                if i > 0 {
                    push_str(out, ", ");
                }
                let ghost mid = out@;
                type_text_into(&ts[i], out);
                proof {
                    let now = pre.push(rpc_view(ts@[i as int]));
                    if i == 0 {
                        assert(out@ =~= base + "("@ + spec_tuple_text(now));
                    } else {
                        assert(out@ =~= base + "("@ + (spec_tuple_text(pre) + ", "@ + spec_type_text(
                            rpc_view(ts@[i as int]),
                        )));
                    }
                }
                i = i + 1;
            }
            proof {
                assert(ts@.take(i as int) =~= ts@);
            }
            push_str(out, ")");
            assert(out@ =~= base + ("("@ + spec_tuple_text(rpc_views(ts@)) + ")"@));
        },
        RpcType::Array(e, n) => {
            push_str(out, "[");
            type_text_into(e, out);
            push_str(out, "; ");
            let d = decimal_chars(*n);
            let ds = string_from_chars(d.as_slice());
            push_str(out, ds.as_str());
            push_str(out, "usize]");
            assert(out@ =~= base + ("["@ + spec_type_text(e@) + "; "@ + decimal(*n as nat) + "usize]"@));
        },
        RpcType::List(e) => {
            push_str(out, "Vec<");
            type_text_into(e, out);
            push_str(out, ">");
            assert(out@ =~= base + ("Vec<"@ + spec_type_text(e@) + ">"@));
        },
        RpcType::SetOf(e) => {
            push_str(out, "std::collections::HashSet<");
            type_text_into(e, out);
            push_str(out, ">");
            assert(out@ =~= base + ("std::collections::HashSet<"@ + spec_type_text(e@) + ">"@));
        },
        RpcType::MapOf(k, v) => {
            push_str(out, "std::collections::HashMap<");
            type_text_into(k, out);
            push_str(out, ", ");
            type_text_into(v, out);
            push_str(out, ">");
            assert(out@ =~= base + ("std::collections::HashMap<"@ + spec_type_text(k@) + ", "@ + spec_type_text(
                v@,
            ) + ">"@));
        },
        RpcType::Result(o, e) => {
            push_str(out, "Result<");
            type_text_into(o, out);
            push_str(out, ", ");
            type_text_into(e, out);
            push_str(out, ">");
            assert(out@ =~= base + ("Result<"@ + spec_type_text(o@) + ", "@ + spec_type_text(e@) + ">"@));
        },
        RpcType::Optional(e) => {
            push_str(out, "Option<");
            type_text_into(e, out);
            push_str(out, ">");
            assert(out@ =~= base + ("Option<"@ + spec_type_text(e@) + ">"@));
        },
    }
}

/// The Rust text of a type of an imported service's interface.
pub fn type_text(ty: &RpcType) -> (r: String)
    requires
        build_type(ty@),
    ensures
        r@ == spec_type_text(ty@),
{
    let mut out: Vec<char> = Vec::new();
    type_text_into(ty, &mut out);
    assert(out@ =~= spec_type_text(ty@));
    string_from_chars(out.as_slice())
}

/// Whether a type is one that a built service's interface can hold.
pub fn is_build_type(ty: &RpcType) -> (r: bool)
    ensures
        r == build_type(ty@),
    decreases ty,
{
    match ty {
        RpcType::U256 | RpcType::H256 => false,
        RpcType::Tuple(ts) => {
            let mut i: usize = 0;
            assert(rpc_views(ts@.take(0)) =~= Seq::<RpcTypeV>::empty());
            while i < ts.len()
                invariant
                    0 <= i <= ts@.len(),
                    *ty == RpcType::Tuple(*ts),
                    ty@ == RpcTypeV::Tuple(rpc_views(ts@)),
                    build_types(rpc_views(ts@.take(i as int))),
                decreases ts@.len() - i,
            {
                proof {
                    assert(ts@.take(i + 1).drop_last() =~= ts@.take(i as int));
                    assert(ts@.take(i + 1).last() == ts@[i as int]);
                    assert(rpc_views(ts@.take(i + 1)) == rpc_views(ts@.take(i as int)).push(rpc_view(ts@[i as int])));
                    assert(rpc_views(ts@.take(i as int)).push(rpc_view(ts@[i as int])).drop_last() =~= rpc_views(ts@.take(i as int)));
                    assert(decreases_to!(*ty => ts@[i as int]));
                }
                if !is_build_type(&ts[i]) {
                    proof {
                        if build_types(rpc_views(ts@)) {
                            lemma_build_elem(ts@, i as int);
                        }
                    }
                    return false;
                }
                i = i + 1;
            }
            assert(ts@.take(i as int) =~= ts@);
            true
        },
        RpcType::Array(e, _) => is_build_type(e),
        RpcType::List(e) => is_build_type(e),
        RpcType::SetOf(e) => is_build_type(e),
        RpcType::Optional(e) => is_build_type(e),
        RpcType::MapOf(k, v) => is_build_type(k) && is_build_type(v),
        RpcType::Result(o, e) => is_build_type(o) && is_build_type(e),
        _ => true,
    }
}

/// The name Rust gives a primitive type, where the type is one.
pub open spec fn rust_prim_name(ty: SrcTy) -> Option<Seq<char>> {
    match ty {
        SrcTy::Bool => Some("bool"@),
        SrcTy::Char => Some("char"@),
        SrcTy::Int(i) => Some(
            match i {
                IntTy::Isize => "isize"@,
                IntTy::I8 => "i8"@,
                IntTy::I16 => "i16"@,
                IntTy::I32 => "i32"@,
                IntTy::I64 => "i64"@,
                IntTy::I128 => "i128"@,
            },
        ),
        SrcTy::Uint(u) => Some(
            match u {
                UintTy::Usize => "usize"@,
                UintTy::U8 => "u8"@,
                UintTy::U16 => "u16"@,
                UintTy::U32 => "u32"@,
                UintTy::U64 => "u64"@,
                UintTy::U128 => "u128"@,
            },
        ),
        SrcTy::Float(f) => Some(
            match f {
                FloatTy::F32 => "f32"@,
                FloatTy::F64 => "f64"@,
            },
        ),
        _ => None,
    }
}

/// A primitive Rust type other than `char` that has an IDL counterpart comes back, in
/// a generated client, as the very primitive it was: the Rust text of its IDL type is
/// its own name.
pub proof fn law_primitive_text_round_trip(ty: SrcTy, local: Seq<char>, rules: TypeRules)
    requires
        rust_prim_name(ty) is Some,
        !(ty is Char),
        spec_convert(ty, local, rules) is Ok,
    ensures
        spec_type_text(spec_convert(ty, local, rules)->Ok_0) == rust_prim_name(ty)->0,
{
}

/// The primitive IDL types are written as distinct Rust types.
pub proof fn law_primitive_texts_distinct(a: RpcTypeV, b: RpcTypeV)
    requires
        is_primitive(a),
        is_primitive(b),
        a != b,
    ensures
        spec_type_text(a) != spec_type_text(b),
{
    reveal_strlit("bool");
    reveal_strlit("u8");
    reveal_strlit("i8");
    reveal_strlit("u16");
    reveal_strlit("i16");
    reveal_strlit("u32");
    reveal_strlit("i32");
    reveal_strlit("u64");
    reveal_strlit("i64");
    reveal_strlit("f32");
    reveal_strlit("f64");
    let (x, y) = (spec_type_text(a), spec_type_text(b));
    if x == y {
        assert(x.len() == y.len());
        assert(x[0] == y[0]);
        if x.len() > 1 {
            assert(x[1] == y[1]);
        }
        if x.len() > 2 {
            assert(x[2] == y[2]);
        }
    }
}

/// Whether an IDL type is one of the primitive numbers or `bool`.
pub open spec fn is_primitive(t: RpcTypeV) -> bool {
    match t {
        RpcTypeV::Bool | RpcTypeV::U8 | RpcTypeV::I8 | RpcTypeV::U16 | RpcTypeV::I16
        | RpcTypeV::U32 | RpcTypeV::I32 | RpcTypeV::U64 | RpcTypeV::I64 | RpcTypeV::F32
        | RpcTypeV::F64 => true,
        _ => false,
    }
}

} // verus!
