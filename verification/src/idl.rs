//! The interface description (IDL) of a service: its types, and the rules that turn
//! Rust types into IDL types.
use vstd::prelude::*;
use crate::path::{str_chars, string_from_chars};

verus! {

/// An identifier of the IDL.
pub type RpcIdent = String;

/// The interface of a service.
pub struct RpcInterface {
    pub name: RpcIdent,
    /// The current crate's name.
    pub namespace: RpcIdent,
    pub imports: Vec<RpcImport>,
    pub type_defs: Vec<RpcTypeDef>,
    pub constructor: StateConstructor,
    pub functions: Vec<RpcFunction>,
    pub idl_gen_version: String,
}

/// A service that this one imports.
pub struct RpcImport {
    pub name: RpcIdent,
    pub version: String,
}

/// The constructor of a service.
pub struct StateConstructor {
    pub inputs: Vec<RpcType>,
}

/// A function of a service.
pub struct RpcFunction {
    pub name: RpcIdent,
    pub mutability: StateMutability,
    pub inputs: Vec<RpcType>,
    pub output: Option<RpcType>,
}

/// Whether a function may change the service's state.
#[derive(Clone, Copy, PartialEq, Eq, Structural, Debug)]
pub enum StateMutability {
    Immutable,
    Mutable,
}

/// A type of the IDL.
pub enum RpcType {
    Bool,
    U8,
    I8,
    U16,
    I16,
    U32,
    I32,
    U64,
    I64,
    F32,
    F64,
    Bytes,
    String,
    Address,
    U256,
    H256,
    Defined { namespace: Option<RpcIdent>, ty: RpcIdent },
    Tuple(Vec<RpcType>),
    Array(Box<RpcType>, u64),
    List(Box<RpcType>),
    SetOf(Box<RpcType>),
    MapOf(Box<RpcType>, Box<RpcType>),
    Optional(Box<RpcType>),
    /// A `Result`, as an imported service's interface may hold one (the conversion of
    /// a service's own types gives none).
    Result(Box<RpcType>, Box<RpcType>),
}

/// A type defined by the service.
pub enum RpcTypeDef {
    Struct { name: RpcIdent, fields: Vec<RpcField> },
    Enum { name: RpcIdent, variants: Vec<RpcIdent> },
}

/// A field of a struct.
pub struct RpcField {
    pub name: RpcIdent,
    pub ty: RpcType,
}

/// A type that cannot be converted to an IDL type (the compiler's span of it is kept
/// by the caller).
pub enum UnsupportedTypeError {
    NotReprC(String),
    ComplexEnum,
    Unimplemented(String),
}

/// Rust's signed integer types.
#[derive(Clone, Copy, PartialEq, Eq, Structural, Debug)]
pub enum IntTy {
    Isize,
    I8,
    I16,
    I32,
    I64,
    I128,
}

/// Rust's unsigned integer types.
#[derive(Clone, Copy, PartialEq, Eq, Structural, Debug)]
pub enum UintTy {
    Usize,
    U8,
    U16,
    U32,
    U64,
    U128,
}

/// Rust's floating-point types.
#[derive(Clone, Copy, PartialEq, Eq, Structural, Debug)]
pub enum FloatTy {
    F32,
    F64,
}

impl RpcInterface {
    /// The name of the service.
    pub fn service_name(&self) -> (r: String)
        ensures
            r@ == self.name@,
    {
        self.name.clone()
    }
}

/// Converts a signed integer type: those of 8 to 64 bits.
pub fn convert_int(ty: IntTy) -> (r: Result<RpcType, UnsupportedTypeError>)
    ensures
        match ty {
            IntTy::I8 => r matches Ok(RpcType::I8),
            IntTy::I16 => r matches Ok(RpcType::I16),
            IntTy::I32 => r matches Ok(RpcType::I32),
            IntTy::I64 => r matches Ok(RpcType::I64),
            IntTy::I128 => r matches Err(UnsupportedTypeError::NotReprC(s)) && s@ == "i128"@,
            IntTy::Isize => r matches Err(UnsupportedTypeError::NotReprC(s)) && s@ == "isize"@,
        },
        result_view(r) == spec_int(ty),
{
    proof {
        reveal_strlit("i128");
        reveal_strlit("isize");
    }
    match ty {
        IntTy::I8 => Ok(RpcType::I8),
        IntTy::I16 => Ok(RpcType::I16),
        IntTy::I32 => Ok(RpcType::I32),
        IntTy::I64 => Ok(RpcType::I64),
        IntTy::I128 => Err(UnsupportedTypeError::NotReprC(String::from_str("i128"))),
        IntTy::Isize => Err(UnsupportedTypeError::NotReprC(String::from_str("isize"))),
    }
}

/// Converts an unsigned integer type: those of 8 to 64 bits.
pub fn convert_uint(ty: UintTy) -> (r: Result<RpcType, UnsupportedTypeError>)
    ensures
        match ty {
            UintTy::U8 => r matches Ok(RpcType::U8),
            UintTy::U16 => r matches Ok(RpcType::U16),
            UintTy::U32 => r matches Ok(RpcType::U32),
            UintTy::U64 => r matches Ok(RpcType::U64),
            UintTy::U128 => r matches Err(UnsupportedTypeError::NotReprC(s)) && s@ == "u128"@,
            UintTy::Usize => r matches Err(UnsupportedTypeError::NotReprC(s)) && s@ == "usize"@,
        },
        result_view(r) == spec_uint(ty),
{
    proof {
        reveal_strlit("u128");
        reveal_strlit("usize");
    }
    match ty {
        UintTy::U8 => Ok(RpcType::U8),
        UintTy::U16 => Ok(RpcType::U16),
        UintTy::U32 => Ok(RpcType::U32),
        UintTy::U64 => Ok(RpcType::U64),
        UintTy::U128 => Err(UnsupportedTypeError::NotReprC(String::from_str("u128"))),
        UintTy::Usize => Err(UnsupportedTypeError::NotReprC(String::from_str("usize"))),
    }
}

/// Converts a floating-point type.
pub fn convert_float(ty: FloatTy) -> (r: Result<RpcType, UnsupportedTypeError>)
    ensures
        match ty {
            FloatTy::F32 => r matches Ok(RpcType::F32),
            FloatTy::F64 => r matches Ok(RpcType::F64),
        },
        result_view(r) == spec_float(ty),
{
    match ty {
        FloatTy::F32 => Ok(RpcType::F32),
        FloatTy::F64 => Ok(RpcType::F64),
    }
}

pub open spec fn starts_with(s: Seq<char>, prefix: Seq<char>) -> bool {
    s.len() >= prefix.len() && s.take(prefix.len() as int) == prefix
}

/// Crates whose types the IDL knows by name: `std`, `core`, `alloc` and the `oasis_` crates.
pub open spec fn spec_is_std(crate_name: Seq<char>) -> bool {
    crate_name == "std"@ || crate_name == "core"@ || crate_name == "alloc"@ || starts_with(
        crate_name,
        "oasis_"@,
    )
}

pub fn chars_eq(a: &[char], b: &[char]) -> (r: bool)
    ensures
        r == (a@ == b@),
{
    if a.len() != b.len() {
        return false;
    }
    let mut i: usize = 0;
    while i < a.len()
        invariant
            a@.len() == b@.len(),
            0 <= i <= a@.len(),
            forall|k: int| 0 <= k < i ==> a@[k] == b@[k],
        decreases a@.len() - i,
    {
        if a[i] != b[i] {
            return false;
        }
        i = i + 1;
    }
    assert(a@ =~= b@);
    true
}

/// Whether two strings have the same chars.
pub fn str_eq(a: &str, b: &str) -> (r: bool)
    ensures
        r == (a@ == b@),
{
    let x = str_chars(a);
    let y = str_chars(b);
    chars_eq(x.as_slice(), y.as_slice())
}

/// Whether `s` starts with `prefix`.
pub fn str_starts_with(s: &str, prefix: &str) -> (r: bool)
    ensures
        r == starts_with(s@, prefix@),
{
    let x = str_chars(s);
    let p = str_chars(prefix);
    if x.len() < p.len() {
        return false;
    }
    let mut i: usize = 0;
    while i < p.len()
        invariant
            x@ == s@,
            p@ == prefix@,
            x@.len() >= p@.len(),
            0 <= i <= p@.len(),
            forall|k: int| 0 <= k < i ==> x@[k] == p@[k],
        decreases p@.len() - i,
    {
        if x[i] != p[i] {
            assert(x@.take(p@.len() as int)[i as int] != p@[i as int]);
            return false;
        }
        i = i + 1;
    }
    assert(x@.take(p@.len() as int) =~= p@);
    true
}

/// Whether the types of the named crate are ones that the IDL knows by name.
pub fn is_std(crate_name: &str) -> (r: bool)
    ensures
        r == spec_is_std(crate_name@),
{
    str_eq(crate_name, "std") || str_eq(crate_name, "core") || str_eq(crate_name, "alloc")
        || str_starts_with(crate_name, "oasis_")
}

/// The components of a path joined by `::`.
pub open spec fn join_path_comps(comps: Seq<Seq<char>>) -> Seq<char>
    decreases comps.len(),
{
    if comps.len() == 0 {
        seq![]
    } else if comps.len() == 1 {
        comps[0]
    } else {
        join_path_comps(comps.drop_last()) + "::"@ + comps.last()
    }
}

pub open spec fn string_views(v: Seq<String>) -> Seq<Seq<char>> {
    v.map_values(|s: String| s@)
}

/// The last component of a definition's path, or nothing.
pub open spec fn last_comp(comps: Seq<Seq<char>>) -> Seq<char> {
    if comps.len() > 0 {
        comps.last()
    } else {
        seq![]
    }
}


/// Which crates a conversion knows the types of by name: the oasis crates (with
/// their 160-bit addresses and 256-bit integers), or the mantle crates.
#[derive(Clone, Copy, PartialEq, Eq, Structural, Debug)]
pub enum TypeRules {
    Oasis,
    Mantle,
}

/// Whether the types of the named crate are known by name under the rules.
pub open spec fn knows_crate(rules: TypeRules, crate_name: Seq<char>) -> bool {
    match rules {
        TypeRules::Oasis => spec_is_std(crate_name),
        TypeRules::Mantle => crate::mantle_build::spec_is_std(crate_name),
    }
}

/// How a named type converts, by its crate and the last component of its path.
pub enum DefRule {
    String,
    Vec,
    Option,
    MapOf,
    SetOf,
    Address,
    U256,
    H256,
    /// A type of a known crate that the IDL has no counterpart for.
    Unsupported,
    /// A type defined by some other crate.
    Defined,
}

pub open spec fn def_rule(rules: TypeRules, crate_name: Seq<char>, ty: Seq<char>) -> DefRule {
    if knows_crate(rules, crate_name) {
        if ty == "String"@ {
            DefRule::String
        } else if ty == "Vec"@ {
            DefRule::Vec
        } else if ty == "Option"@ {
            DefRule::Option
        } else if ty == "HashMap"@ || ty == "BTreeMap"@ {
            DefRule::MapOf
        } else if ty == "HashSet"@ || ty == "BTreeSet"@ {
            DefRule::SetOf
        } else if ty == "Address"@ || (rules == TypeRules::Oasis && ty == "H160"@) {
            DefRule::Address
        } else if rules == TypeRules::Oasis && ty == "U256"@ {
            DefRule::U256
        } else if rules == TypeRules::Oasis && ty == "H256"@ {
            DefRule::H256
        } else {
            DefRule::Unsupported
        }
    } else {
        DefRule::Defined
    }
}

/// The type arguments that a rule reads.
pub open spec fn args_needed(rule: DefRule) -> nat {
    match rule {
        DefRule::Vec | DefRule::Option | DefRule::SetOf => 1,
        DefRule::MapOf => 2,
        _ => 0,
    }
}

/// What the conversion reads of a Rust type, as the compiler resolved it.
pub enum SrcTy {
    Bool,
    Char,
    Str,
    Int(IntTy),
    Uint(UintTy),
    Float(FloatTy),
    /// `[T]`.
    Slice(Box<SrcTy>),
    /// `[T; N]`, with `N` where it is known (an integer literal).
    Array(Box<SrcTy>, Option<u64>),
    /// `&T` or `&mut T`.
    Ref(Box<SrcTy>),
    Tuple(Vec<SrcTy>),
    /// A struct, enum, union, variant, alias or constant: the crate that defines it,
    /// its definition path, and its type arguments.
    Named { crate_name: String, def_path: Vec<String>, args: Vec<SrcTy> },
    /// Any other type, as the compiler prints it.
    Other(String),
}

/// The model of an `RpcType`.
pub enum RpcTypeV {
    Bool,
    U8,
    I8,
    U16,
    I16,
    U32,
    I32,
    U64,
    I64,
    F32,
    F64,
    Bytes,
    String,
    Address,
    U256,
    H256,
    Defined { namespace: Option<Seq<char>>, ty: Seq<char> },
    Tuple(Seq<RpcTypeV>),
    Array(Box<RpcTypeV>, u64),
    List(Box<RpcTypeV>),
    SetOf(Box<RpcTypeV>),
    MapOf(Box<RpcTypeV>, Box<RpcTypeV>),
    Optional(Box<RpcTypeV>),
    Result(Box<RpcTypeV>, Box<RpcTypeV>),
}

/// The model of an `UnsupportedTypeError`.
pub enum UnsupportedV {
    NotReprC(Seq<char>),
    ComplexEnum,
    Unimplemented(Seq<char>),
}

pub open spec fn rpc_view(t: RpcType) -> RpcTypeV
    decreases t,
{
    match t {
        RpcType::Bool => RpcTypeV::Bool,
        RpcType::U8 => RpcTypeV::U8,
        RpcType::I8 => RpcTypeV::I8,
        RpcType::U16 => RpcTypeV::U16,
        RpcType::I16 => RpcTypeV::I16,
        RpcType::U32 => RpcTypeV::U32,
        RpcType::I32 => RpcTypeV::I32,
        RpcType::U64 => RpcTypeV::U64,
        RpcType::I64 => RpcTypeV::I64,
        RpcType::F32 => RpcTypeV::F32,
        RpcType::F64 => RpcTypeV::F64,
        RpcType::Bytes => RpcTypeV::Bytes,
        RpcType::String => RpcTypeV::String,
        RpcType::Address => RpcTypeV::Address,
        RpcType::U256 => RpcTypeV::U256,
        RpcType::H256 => RpcTypeV::H256,
        RpcType::Defined { namespace, ty } => RpcTypeV::Defined {
            namespace: match namespace {
                Some(n) => Some(n@),
                None => None,
            },
            ty: ty@,
        },
        RpcType::Tuple(ts) => RpcTypeV::Tuple(rpc_views(ts@)),
        RpcType::Array(t, n) => RpcTypeV::Array(Box::new(rpc_view(*t)), n),
        RpcType::List(t) => RpcTypeV::List(Box::new(rpc_view(*t))),
        RpcType::SetOf(t) => RpcTypeV::SetOf(Box::new(rpc_view(*t))),
        RpcType::MapOf(k, v) => RpcTypeV::MapOf(Box::new(rpc_view(*k)), Box::new(rpc_view(*v))),
        RpcType::Optional(t) => RpcTypeV::Optional(Box::new(rpc_view(*t))),
        RpcType::Result(o, e) => RpcTypeV::Result(Box::new(rpc_view(*o)), Box::new(rpc_view(*e))),
    }
}

pub open spec fn rpc_views(ts: Seq<RpcType>) -> Seq<RpcTypeV>
    decreases ts,
{
    if ts.len() == 0 {
        seq![]
    } else {
        rpc_views(ts.drop_last()).push(rpc_view(ts.last()))
    }
}

impl View for RpcType {
    type V = RpcTypeV;

    open spec fn view(&self) -> RpcTypeV {
        rpc_view(*self)
    }
}

impl View for UnsupportedTypeError {
    type V = UnsupportedV;

    open spec fn view(&self) -> UnsupportedV {
        match self {
            UnsupportedTypeError::NotReprC(s) => UnsupportedV::NotReprC(s@),
            UnsupportedTypeError::ComplexEnum => UnsupportedV::ComplexEnum,
            UnsupportedTypeError::Unimplemented(s) => UnsupportedV::Unimplemented(s@),
        }
    }
}

pub open spec fn result_view(r: Result<RpcType, UnsupportedTypeError>) -> Result<RpcTypeV, UnsupportedV> {
    match r {
        Ok(t) => Ok(t@),
        Err(e) => Err(e@),
    }
}

pub open spec fn spec_int(ty: IntTy) -> Result<RpcTypeV, UnsupportedV> {
    match ty {
        IntTy::I8 => Ok(RpcTypeV::I8),
        IntTy::I16 => Ok(RpcTypeV::I16),
        IntTy::I32 => Ok(RpcTypeV::I32),
        IntTy::I64 => Ok(RpcTypeV::I64),
        IntTy::I128 => Err(UnsupportedV::NotReprC("i128"@)),
        IntTy::Isize => Err(UnsupportedV::NotReprC("isize"@)),
    }
}

pub open spec fn spec_uint(ty: UintTy) -> Result<RpcTypeV, UnsupportedV> {
    match ty {
        UintTy::U8 => Ok(RpcTypeV::U8),
        UintTy::U16 => Ok(RpcTypeV::U16),
        UintTy::U32 => Ok(RpcTypeV::U32),
        UintTy::U64 => Ok(RpcTypeV::U64),
        UintTy::U128 => Err(UnsupportedV::NotReprC("u128"@)),
        UintTy::Usize => Err(UnsupportedV::NotReprC("usize"@)),
    }
}

pub open spec fn spec_float(ty: FloatTy) -> Result<RpcTypeV, UnsupportedV> {
    match ty {
        FloatTy::F32 => Ok(RpcTypeV::F32),
        FloatTy::F64 => Ok(RpcTypeV::F64),
    }
}

/// A conversion's result wrapped by `f`, or its error.
pub open spec fn wrap(r: Result<RpcTypeV, UnsupportedV>, f: spec_fn(RpcTypeV) -> RpcTypeV) -> Result<RpcTypeV, UnsupportedV> {
    match r {
        Ok(t) => Ok(f(t)),
        Err(e) => Err(e),
    }
}

pub open spec fn is_u8(ty: SrcTy) -> bool {
    ty matches SrcTy::Uint(UintTy::U8)
}

/// The IDL type of a Rust type: references are looked through, slices are lists,
/// arrays of known length are arrays (else lists), `char` is an `i8`, and named
/// types follow their rule; any other type has no counterpart.
pub open spec fn spec_convert(ty: SrcTy, local: Seq<char>, rules: TypeRules) -> Result<RpcTypeV, UnsupportedV>
    decreases ty,
{
    match ty {
        SrcTy::Bool => Ok(RpcTypeV::Bool),
        SrcTy::Char => Ok(RpcTypeV::I8),
        SrcTy::Str => Ok(RpcTypeV::String),
        SrcTy::Int(i) => spec_int(i),
        SrcTy::Uint(u) => spec_uint(u),
        SrcTy::Float(f) => spec_float(f),
        SrcTy::Slice(t) => wrap(spec_convert(*t, local, rules), |x: RpcTypeV| RpcTypeV::List(Box::new(x))),
        SrcTy::Array(t, n) => match n {
            Some(n) => wrap(spec_convert(*t, local, rules), |x: RpcTypeV| RpcTypeV::Array(Box::new(x), n)),
            None => wrap(spec_convert(*t, local, rules), |x: RpcTypeV| RpcTypeV::List(Box::new(x))),
        },
        SrcTy::Ref(t) => spec_convert(*t, local, rules),
        SrcTy::Tuple(ts) => match spec_convert_all(ts@, local, rules) {
            Ok(xs) => Ok(RpcTypeV::Tuple(xs)),
            Err(e) => Err(e),
        },
        SrcTy::Named { crate_name, def_path, args } => {
            let last = last_comp(string_views(def_path@));
            match def_rule(rules, crate_name@, last) {
                DefRule::String => Ok(RpcTypeV::String),
                DefRule::Vec => if args@.len() > 0 {
                    if is_u8(args@[0]) {
                        Ok(RpcTypeV::Bytes)
                    } else {
                        wrap(spec_convert(args@[0], local, rules), |x: RpcTypeV| RpcTypeV::List(Box::new(x)))
                    }
                } else {
                    Ok(RpcTypeV::Bytes)
                },
                DefRule::Option => if args@.len() > 0 {
                    wrap(spec_convert(args@[0], local, rules), |x: RpcTypeV| RpcTypeV::Optional(Box::new(x)))
                } else {
                    Ok(RpcTypeV::Bytes)
                },
                DefRule::MapOf => if args@.len() > 1 {
                    match spec_convert(args@[0], local, rules) {
                        Err(e) => Err(e),
                        Ok(k) => wrap(spec_convert(args@[1], local, rules), |v: RpcTypeV| RpcTypeV::MapOf(Box::new(k), Box::new(v))),
                    }
                } else {
                    Ok(RpcTypeV::Bytes)
                },
                DefRule::SetOf => if args@.len() > 0 {
                    wrap(spec_convert(args@[0], local, rules), |x: RpcTypeV| RpcTypeV::SetOf(Box::new(x)))
                } else {
                    Ok(RpcTypeV::Bytes)
                },
                DefRule::Address => Ok(RpcTypeV::Address),
                DefRule::U256 => Ok(RpcTypeV::U256),
                DefRule::H256 => Ok(RpcTypeV::H256),
                DefRule::Unsupported => Err(
                    UnsupportedV::NotReprC(crate_name@ + "::"@ + join_path_comps(string_views(def_path@))),
                ),
                DefRule::Defined => Ok(
                    RpcTypeV::Defined {
                        namespace: if crate_name@ == local {
                            None
                        } else {
                            Some(crate_name@)
                        },
                        ty: last,
                    },
                ),
            }
        },
        SrcTy::Other(s) => Err(UnsupportedV::NotReprC(s@)),
    }
}

/// The IDL types of a list of Rust types, or the first error.
pub open spec fn spec_convert_all(ts: Seq<SrcTy>, local: Seq<char>, rules: TypeRules) -> Result<Seq<RpcTypeV>, UnsupportedV>
    decreases ts,
{
    if ts.len() == 0 {
        Ok(seq![])
    } else {
        match spec_convert_all(ts.drop_last(), local, rules) {
            Err(e) => Err(e),
            Ok(xs) => match spec_convert(ts.last(), local, rules) {
                Err(e) => Err(e),
                Ok(x) => Ok(xs.push(x)),
            },
        }
    }
}

/// Whether every named type in `ty` has the type arguments its rule reads (which the
/// compiler guarantees of a type that checks).
pub open spec fn args_complete(ty: SrcTy, rules: TypeRules) -> bool
    decreases ty,
{
    match ty {
        SrcTy::Slice(t) => args_complete(*t, rules),
        SrcTy::Array(t, _) => args_complete(*t, rules),
        SrcTy::Ref(t) => args_complete(*t, rules),
        SrcTy::Tuple(ts) => all_args_complete(ts@, rules),
        SrcTy::Named { crate_name, def_path, args } => {
            let k = args_needed(def_rule(rules, crate_name@, last_comp(string_views(def_path@))));
            &&& args@.len() >= k
            &&& (k >= 1 ==> args_complete(args@[0], rules))
            &&& (k >= 2 ==> args_complete(args@[1], rules))
        },
        _ => true,
    }
}

pub open spec fn all_args_complete(ts: Seq<SrcTy>, rules: TypeRules) -> bool
    decreases ts,
{
    if ts.len() == 0 {
        true
    } else {
        all_args_complete(ts.drop_last(), rules) && args_complete(ts.last(), rules)
    }
}

fn join_comps_exec(comps: &Vec<String>) -> (r: Vec<char>)
    ensures
        r@ == join_path_comps(string_views(comps@)),
{
    let mut out: Vec<char> = Vec::new();
    let mut i: usize = 0;
    while i < comps.len()
        invariant
            0 <= i <= comps@.len(),
            out@ == join_path_comps(string_views(comps@).take(i as int)),
        decreases comps@.len() - i,
    {
        let ghost prev = out@;
        if i > 0 {
            out.push(':');
            out.push(':');
        }
        let c = str_chars(comps[i].as_str());
        let mut k: usize = 0;
        let ghost base = out@;
        while k < c.len()
            invariant
                0 <= k <= c@.len(),
                out@ == base + c@.take(k as int),
            decreases c@.len() - k,
        {
            out.push(c[k]);
            k = k + 1;
            assert(out@ =~= base + c@.take(k as int));
        }
        assert(c@.take(k as int) =~= c@);
        let ghost t = string_views(comps@).take(i + 1);
        assert(t.drop_last() =~= string_views(comps@).take(i as int));
        assert(t.last() == comps@[i as int]@);
        if i == 0 {
            assert(out@ =~= t[0]);
        } else {
            proof {
                reveal_strlit("::");
            }
            assert(out@ =~= prev + "::"@ + c@);
        }
        i = i + 1;
    }
    assert(string_views(comps@).take(i as int) =~= string_views(comps@));
    out
}


proof fn lemma_all_complete(ts: Seq<SrcTy>, rules: TypeRules, i: int)
    requires
        all_args_complete(ts, rules),
        0 <= i < ts.len(),
    ensures
        args_complete(ts[i], rules),
    decreases ts.len(),
{
    if i < ts.len() - 1 {
        lemma_all_complete(ts.drop_last(), rules, i);
    }
}

proof fn lemma_convert_all_prefix(ts: Seq<SrcTy>, local: Seq<char>, rules: TypeRules, i: int)
    requires
        0 <= i <= ts.len(),
        spec_convert_all(ts.take(i), local, rules) is Err,
    ensures
        spec_convert_all(ts, local, rules) == spec_convert_all(ts.take(i), local, rules),
    decreases ts.len(),
{
    if i < ts.len() {
        assert(ts.drop_last().take(i) =~= ts.take(i));
        lemma_convert_all_prefix(ts.drop_last(), local, rules, i);
    } else {
        assert(ts.take(i) =~= ts);
    }
}

/// Whether the types of the named crate are known by name under the rules.
fn knows_crate_exec(rules: TypeRules, crate_name: &str) -> (r: bool)
    ensures
        r == knows_crate(rules, crate_name@),
{
    match rules {
        TypeRules::Oasis => is_std(crate_name),
        TypeRules::Mantle => crate::mantle_build::is_std(crate_name),
    }
}

/// `crate_name::a::b::...`: how an unsupported named type is reported.
fn qualified_name(crate_name: &String, def_path: &Vec<String>) -> (r: String)
    ensures
        r@ == crate_name@ + "::"@ + join_path_comps(string_views(def_path@)),
{
    let mut msg = str_chars(crate_name.as_str());
    msg.push(':');
    msg.push(':');
    let rest = join_comps_exec(def_path);
    let mut k: usize = 0;
    let ghost mid = msg@;
    while k < rest.len()
        invariant
            0 <= k <= rest@.len(),
            msg@ == mid + rest@.take(k as int),
        decreases rest@.len() - k,
    {
        msg.push(rest[k]);
        k = k + 1;
        assert(msg@ =~= mid + rest@.take(k as int));
    }
    proof {
        reveal_strlit("::");
        assert(rest@.take(k as int) =~= rest@);
        assert(msg@ =~= crate_name@ + "::"@ + rest@);
    }
    string_from_chars(msg.as_slice())
}

/// Converts a Rust type to its IDL type under the given rules; `local_crate` is the
/// crate being described, whose types are named without a namespace.
pub fn convert_type(ty: &SrcTy, local_crate: &str, rules: TypeRules) -> (r: Result<RpcType, UnsupportedTypeError>)
    requires
        args_complete(*ty, rules),
    ensures
        result_view(r) == spec_convert(*ty, local_crate@, rules),
    decreases ty,
{
    match ty {
        SrcTy::Bool => Ok(RpcType::Bool),
        SrcTy::Char => Ok(RpcType::I8),
        SrcTy::Str => Ok(RpcType::String),
        SrcTy::Int(i) => convert_int(*i),
        SrcTy::Uint(u) => convert_uint(*u),
        SrcTy::Float(f) => convert_float(*f),
        SrcTy::Slice(t) => match convert_type(t, local_crate, rules) {
            Ok(x) => Ok(RpcType::List(Box::new(x))),
            Err(e) => Err(e),
        },
        SrcTy::Array(t, n) => match convert_type(t, local_crate, rules) {
            Ok(x) => match n {
                Some(n) => Ok(RpcType::Array(Box::new(x), *n)),
                None => Ok(RpcType::List(Box::new(x))),
            },
            Err(e) => Err(e),
        },
        SrcTy::Ref(t) => convert_type(t, local_crate, rules),
        SrcTy::Tuple(ts) => {
            let mut out: Vec<RpcType> = Vec::new();
            let mut i: usize = 0;
            while i < ts.len()
                invariant
                    *ty == SrcTy::Tuple(*ts),
                    all_args_complete(ts@, rules),
                    0 <= i <= ts@.len(),
                    spec_convert_all(ts@.take(i as int), local_crate@, rules) == Ok::<
                        Seq<RpcTypeV>,
                        UnsupportedV,
                    >(rpc_views(out@)),
                decreases ts@.len() - i,
            {
                proof {
                    lemma_all_complete(ts@, rules, i as int);
                    assert(ts@.take(i + 1).drop_last() =~= ts@.take(i as int));
                }
                match convert_type(&ts[i], local_crate, rules) {
                    Ok(x) => {
                        let ghost before = out@;
                        out.push(x);
                        assert(out@.drop_last() =~= before);
                    },
                    Err(e) => {
                        proof {
                            lemma_convert_all_prefix(ts@, local_crate@, rules, i + 1);
                        }
                        return Err(e);
                    },
                }
                i = i + 1;
            }
            assert(ts@.take(i as int) =~= ts@);
            Ok(RpcType::Tuple(out))
        },
        SrcTy::Named { crate_name, def_path, args } => {
            let last: String = if def_path.len() > 0 {
                proof {
                    assert(string_views(def_path@).last() == def_path@[def_path@.len() - 1]@);
                }
                def_path[def_path.len() - 1].clone()
            } else {
                String::new()
            };
            let t = last.as_str();
            if knows_crate_exec(rules, crate_name.as_str()) {
                let oasis = match rules {
                    TypeRules::Oasis => true,
                    TypeRules::Mantle => false,
                };
                if str_eq(t, "String") {
                    Ok(RpcType::String)
                } else if str_eq(t, "Vec") {
                    if matches!(args[0], SrcTy::Uint(UintTy::U8)) {
                        Ok(RpcType::Bytes)
                    } else {
                        match convert_type(&args[0], local_crate, rules) {
                            Ok(x) => Ok(RpcType::List(Box::new(x))),
                            Err(e) => Err(e),
                        }
                    }
                } else if str_eq(t, "Option") {
                    match convert_type(&args[0], local_crate, rules) {
                        Ok(x) => Ok(RpcType::Optional(Box::new(x))),
                        Err(e) => Err(e),
                    }
                } else if str_eq(t, "HashMap") || str_eq(t, "BTreeMap") {
                    match convert_type(&args[0], local_crate, rules) {
                        Ok(k) => match convert_type(&args[1], local_crate, rules) {
                            Ok(v) => Ok(RpcType::MapOf(Box::new(k), Box::new(v))),
                            Err(e) => Err(e),
                        },
                        Err(e) => Err(e),
                    }
                } else if str_eq(t, "HashSet") || str_eq(t, "BTreeSet") {
                    match convert_type(&args[0], local_crate, rules) {
                        Ok(x) => Ok(RpcType::SetOf(Box::new(x))),
                        Err(e) => Err(e),
                    }
                } else if str_eq(t, "Address") || (oasis && str_eq(t, "H160")) {
                    Ok(RpcType::Address)
                } else if oasis && str_eq(t, "U256") {
                    Ok(RpcType::U256)
                } else if oasis && str_eq(t, "H256") {
                    Ok(RpcType::H256)
                } else {
                    Err(UnsupportedTypeError::NotReprC(qualified_name(crate_name, def_path)))
                }
            } else {
                let namespace = if str_eq(crate_name.as_str(), local_crate) {
                    None
                } else {
                    Some(crate_name.clone())
                };
                Ok(RpcType::Defined { namespace, ty: last })
            }
        },
        SrcTy::Other(s) => Err(UnsupportedTypeError::NotReprC(s.clone())),
    }
}

// ---------------------------------------------------------------- definitions and functions

/// A field of a struct, as the compiler resolved it.
pub struct FieldShape {
    pub name: String,
    pub ty: SrcTy,
}

/// A type definition that the interface names, as the compiler resolved it.
pub enum AdtShape {
    /// An enum, its variants' names, and whether no variant holds data.
    Enum { name: String, variants: Vec<String>, payload_free: bool },
    Struct { name: String, fields: Vec<FieldShape> },
    Union { name: String },
}

/// How a function takes `self`.
#[derive(Clone, Copy, PartialEq, Eq, Structural, Debug)]
pub enum SelfKind {
    ImmRef,
    MutRef,
    /// By value, or not at all.
    Other,
}

/// A function of the service, as the compiler resolved it.
pub struct FnShape {
    pub name: String,
    pub self_kind: SelfKind,
    /// Every input, `self` and the context included.
    pub inputs: Vec<SrcTy>,
    /// The type that the returned `Result` holds, or nothing where the function
    /// declares no return type.
    pub output: Option<SrcTy>,
}

pub struct RpcFieldV {
    pub name: Seq<char>,
    pub ty: RpcTypeV,
}

pub enum RpcTypeDefV {
    Struct { name: Seq<char>, fields: Seq<RpcFieldV> },
    Enum { name: Seq<char>, variants: Seq<Seq<char>> },
}

pub struct RpcFunctionV {
    pub name: Seq<char>,
    pub mutability: StateMutability,
    pub inputs: Seq<RpcTypeV>,
    pub output: Option<RpcTypeV>,
}

pub struct RpcImportV {
    pub name: Seq<char>,
    pub version: Seq<char>,
}

pub struct RpcInterfaceV {
    pub name: Seq<char>,
    pub namespace: Seq<char>,
    pub imports: Seq<RpcImportV>,
    pub type_defs: Seq<RpcTypeDefV>,
    pub constructor: Seq<RpcTypeV>,
    pub functions: Seq<RpcFunctionV>,
    pub version: Seq<char>,
}

impl View for RpcField {
    type V = RpcFieldV;

    open spec fn view(&self) -> RpcFieldV {
        RpcFieldV { name: self.name@, ty: self.ty@ }
    }
}

pub open spec fn field_views(v: Seq<RpcField>) -> Seq<RpcFieldV> {
    v.map_values(|f: RpcField| f@)
}

impl View for RpcTypeDef {
    type V = RpcTypeDefV;

    open spec fn view(&self) -> RpcTypeDefV {
        match self {
            RpcTypeDef::Struct { name, fields } => RpcTypeDefV::Struct {
                name: name@,
                fields: field_views(fields@),
            },
            RpcTypeDef::Enum { name, variants } => RpcTypeDefV::Enum {
                name: name@,
                variants: string_views(variants@),
            },
        }
    }
}

impl View for RpcFunction {
    type V = RpcFunctionV;

    open spec fn view(&self) -> RpcFunctionV {
        RpcFunctionV {
            name: self.name@,
            mutability: self.mutability,
            inputs: rpc_views(self.inputs@),
            output: match self.output {
                Some(t) => Some(t@),
                None => None,
            },
        }
    }
}

impl View for RpcImport {
    type V = RpcImportV;

    open spec fn view(&self) -> RpcImportV {
        RpcImportV { name: self.name@, version: self.version@ }
    }
}

pub open spec fn type_def_views(v: Seq<RpcTypeDef>) -> Seq<RpcTypeDefV> {
    v.map_values(|d: RpcTypeDef| d@)
}

pub open spec fn function_views(v: Seq<RpcFunction>) -> Seq<RpcFunctionV> {
    v.map_values(|f: RpcFunction| f@)
}

pub open spec fn import_views(v: Seq<RpcImport>) -> Seq<RpcImportV> {
    v.map_values(|i: RpcImport| i@)
}

pub open spec fn error_views(v: Seq<UnsupportedTypeError>) -> Seq<UnsupportedV> {
    v.map_values(|e: UnsupportedTypeError| e@)
}

impl View for RpcInterface {
    type V = RpcInterfaceV;

    open spec fn view(&self) -> RpcInterfaceV {
        RpcInterfaceV {
            name: self.name@,
            namespace: self.namespace@,
            imports: import_views(self.imports@),
            type_defs: type_def_views(self.type_defs@),
            constructor: rpc_views(self.constructor.inputs@),
            functions: function_views(self.functions@),
            version: self.idl_gen_version@,
        }
    }
}

/// The fields of a struct, or the first field whose type has no counterpart.
pub open spec fn spec_convert_fields(fs: Seq<FieldShape>, local: Seq<char>, rules: TypeRules) -> Result<Seq<RpcFieldV>, UnsupportedV>
    decreases fs.len(),
{
    if fs.len() == 0 {
        Ok(seq![])
    } else {
        match spec_convert_fields(fs.drop_last(), local, rules) {
            Err(e) => Err(e),
            Ok(done) => match spec_convert(fs.last().ty, local, rules) {
                Err(e) => Err(e),
                Ok(t) => Ok(done.push(RpcFieldV { name: fs.last().name@, ty: t })),
            },
        }
    }
}

/// The IDL definition of a type: an enum whose variants hold no data, or a struct
/// whose fields all convert; unions have no counterpart.
pub open spec fn spec_convert_type_def(def: AdtShape, local: Seq<char>, rules: TypeRules) -> Result<RpcTypeDefV, UnsupportedV> {
    match def {
        AdtShape::Enum { name, variants, payload_free } => if !payload_free {
            Err(UnsupportedV::ComplexEnum)
        } else {
            Ok(RpcTypeDefV::Enum { name: name@, variants: string_views(variants@) })
        },
        AdtShape::Struct { name, fields } => match spec_convert_fields(fields@, local, rules) {
            Ok(fs) => Ok(RpcTypeDefV::Struct { name: name@, fields: fs }),
            Err(e) => Err(e),
        },
        AdtShape::Union { .. } => Err(UnsupportedV::NotReprC("union"@)),
    }
}

/// The errors of converting each of a list of types, in order.
pub open spec fn spec_errors(ts: Seq<SrcTy>, local: Seq<char>, rules: TypeRules) -> Seq<UnsupportedV>
    decreases ts.len(),
{
    if ts.len() == 0 {
        seq![]
    } else {
        match spec_convert(ts.last(), local, rules) {
            Err(e) => spec_errors(ts.drop_last(), local, rules).push(e),
            Ok(_) => spec_errors(ts.drop_last(), local, rules),
        }
    }
}

/// The types after the first `n`.
pub open spec fn drop_front(s: Seq<SrcTy>, n: int) -> Seq<SrcTy> {
    if n <= s.len() {
        s.skip(n)
    } else {
        seq![]
    }
}

/// The constructor's inputs (its first input, the context, left out), or every error.
pub open spec fn spec_convert_ctor(inputs: Seq<SrcTy>, local: Seq<char>, rules: TypeRules) -> Result<Seq<RpcTypeV>, Seq<UnsupportedV>> {
    let ins = drop_front(inputs, 1);
    if spec_errors(ins, local, rules).len() > 0 {
        Err(spec_errors(ins, local, rules))
    } else {
        Ok(spec_convert_all(ins, local, rules)->Ok_0)
    }
}

/// What a function returns in the IDL: nothing for `()`.
pub open spec fn spec_output(output: Option<SrcTy>, local: Seq<char>, rules: TypeRules) -> Result<Option<RpcTypeV>, UnsupportedV> {
    match output {
        None => Ok(None),
        Some(t) => match spec_convert(t, local, rules) {
            Err(e) => Err(e),
            Ok(RpcTypeV::Tuple(ts)) => if ts.len() == 0 {
                Ok(None)
            } else {
                Ok(Some(RpcTypeV::Tuple(ts)))
            },
            Ok(x) => Ok(Some(x)),
        },
    }
}

/// A function of the IDL (its first two inputs, `self` and the context, left out), or
/// every error of its inputs and then of its output.
pub open spec fn spec_convert_function(f: FnShape, local: Seq<char>, rules: TypeRules) -> Result<RpcFunctionV, Seq<UnsupportedV>> {
    let ins = drop_front(f.inputs@, 2);
    let out = spec_output(f.output, local, rules);
    let errs = match out {
        Err(e) => spec_errors(ins, local, rules).push(e),
        Ok(_) => spec_errors(ins, local, rules),
    };
    if errs.len() > 0 {
        Err(errs)
    } else {
        Ok(
            RpcFunctionV {
                name: f.name@,
                mutability: if f.self_kind == SelfKind::ImmRef {
                    StateMutability::Immutable
                } else {
                    StateMutability::Mutable
                },
                inputs: spec_convert_all(ins, local, rules)->Ok_0,
                output: out->Ok_0,
            },
        )
    }
}

pub open spec fn word_new() -> Seq<char> {
    seq!['n', 'e', 'w']
}

/// The type definitions that convert, and the errors of those that do not, in order.
pub open spec fn spec_type_defs(defs: Seq<AdtShape>, local: Seq<char>, rules: TypeRules) -> (Seq<UnsupportedV>, Seq<RpcTypeDefV>)
    decreases defs.len(),
{
    if defs.len() == 0 {
        (seq![], seq![])
    } else {
        let (errs, done) = spec_type_defs(defs.drop_last(), local, rules);
        match spec_convert_type_def(defs.last(), local, rules) {
            Ok(d) => (errs, done.push(d)),
            Err(e) => (errs.push(e), done),
        }
    }
}

/// The functions in order: `new` is the constructor (the last one that converts wins),
/// the others are functions; with every error, in order.
pub open spec fn spec_functions(fns: Seq<FnShape>, local: Seq<char>, rules: TypeRules) -> (Seq<UnsupportedV>, Option<Seq<RpcTypeV>>, Seq<RpcFunctionV>)
    decreases fns.len(),
{
    if fns.len() == 0 {
        (seq![], None, seq![])
    } else {
        let (errs, ctor, done) = spec_functions(fns.drop_last(), local, rules);
        let f = fns.last();
        if f.name@ == word_new() {
            match spec_convert_ctor(f.inputs@, local, rules) {
                Ok(c) => (errs, Some(c), done),
                Err(es) => (errs + es, ctor, done),
            }
        } else {
            match spec_convert_function(f, local, rules) {
                Ok(g) => (errs, ctor, done.push(g)),
                Err(es) => (errs + es, ctor, done),
            }
        }
    }
}

/// Every error of the interface: those of its type definitions, then those of its
/// functions.
pub open spec fn spec_interface_errors(defs: Seq<AdtShape>, fns: Seq<FnShape>, local: Seq<char>) -> Seq<UnsupportedV> {
    spec_type_defs(defs, local, TypeRules::Oasis).0 + spec_functions(fns, local, TypeRules::Oasis).0
}

/// Whether every type the interface converts is complete, and every function but the
/// constructor takes `self` by reference.
pub open spec fn interface_inputs_ok(defs: Seq<AdtShape>, fns: Seq<FnShape>, rules: TypeRules) -> bool {
    &&& forall|i: int| 0 <= i < defs.len() ==> (#[trigger] defs[i] matches AdtShape::Struct { fields, .. }
        ==> forall|j: int| 0 <= j < fields@.len() ==> args_complete(#[trigger] fields@[j].ty, rules))
    &&& forall|i: int| 0 <= i < fns.len() ==> {
        &&& all_args_complete((#[trigger] fns[i]).inputs@, rules)
        &&& (fns[i].output matches Some(t) ==> args_complete(t, rules))
        &&& (fns[i].name@ != word_new() ==> fns[i].self_kind != SelfKind::Other)
    }
}

pub(crate) proof fn lemma_rpc_views_len(ts: Seq<RpcType>)
    ensures
        rpc_views(ts).len() == ts.len(),
    decreases ts.len(),
{
    if ts.len() > 0 {
        lemma_rpc_views_len(ts.drop_last());
    }
}

/// Converts the types from index `start` on: every error in order, and (where there
/// is none) the converted types.
fn convert_each(ts: &Vec<SrcTy>, start: usize, local_crate: &str, rules: TypeRules) -> (r: (Vec<RpcType>, Vec<UnsupportedTypeError>))
    requires
        all_args_complete(ts@, rules),
    ensures
        error_views(r.1@) == spec_errors(drop_front(ts@, start as int), local_crate@, rules),
        r.1@.len() == 0 ==> spec_convert_all(drop_front(ts@, start as int), local_crate@, rules) == Ok::<
            Seq<RpcTypeV>,
            UnsupportedV,
        >(rpc_views(r.0@)),
{
    let ghost s = drop_front(ts@, start as int);
    let mut oks: Vec<RpcType> = Vec::new();
    let mut errs: Vec<UnsupportedTypeError> = Vec::new();
    if start >= ts.len() {
        assert(s =~= seq![]);
        return (oks, errs);
    }
    let mut i: usize = start;
    while i < ts.len()
        invariant
            start <= i <= ts@.len(),
            s == ts@.skip(start as int),
            all_args_complete(ts@, rules),
            error_views(errs@) == spec_errors(s.take(i - start), local_crate@, rules),
            errs@.len() == 0 ==> spec_convert_all(s.take(i - start), local_crate@, rules) == Ok::<
                Seq<RpcTypeV>,
                UnsupportedV,
            >(rpc_views(oks@)),
        decreases ts@.len() - i,
    {
        proof {
            lemma_all_complete(ts@, rules, i as int);
            assert(s.take(i + 1 - start).drop_last() =~= s.take(i - start));
            assert(s.take(i + 1 - start).last() == ts@[i as int]);
        }
        match convert_type(&ts[i], local_crate, rules) {
            Ok(x) => {
                let ghost before = oks@;
                oks.push(x);
                assert(oks@.drop_last() =~= before);
            },
            Err(e) => {
                let ghost before = errs@;
                errs.push(e);
                assert(error_views(errs@) =~= error_views(before).push(e@));
            },
        }
        i = i + 1;
    }
    assert(s.take(i - start) =~= s);
    (oks, errs)
}

/// Converts the fields of a struct, or gives the first error.
fn convert_fields(fields: &Vec<FieldShape>, local_crate: &str, rules: TypeRules) -> (r: Result<Vec<RpcField>, UnsupportedTypeError>)
    requires
        forall|j: int| 0 <= j < fields@.len() ==> args_complete(#[trigger] fields@[j].ty, rules),
    ensures
        match r {
            Ok(fs) => spec_convert_fields(fields@, local_crate@, rules) == Ok::<Seq<RpcFieldV>, UnsupportedV>(
                field_views(fs@),
            ),
            Err(e) => spec_convert_fields(fields@, local_crate@, rules) == Err::<Seq<RpcFieldV>, UnsupportedV>(
                e@,
            ),
        },
{
    let mut out: Vec<RpcField> = Vec::new();
    let mut i: usize = 0;
    assert(fields@.take(0) =~= Seq::<FieldShape>::empty());
    assert(field_views(out@) =~= Seq::<RpcFieldV>::empty());
    while i < fields.len()
        invariant
            0 <= i <= fields@.len(),
            forall|j: int| 0 <= j < fields@.len() ==> args_complete(#[trigger] fields@[j].ty, rules),
            spec_convert_fields(fields@.take(i as int), local_crate@, rules) == Ok::<
                Seq<RpcFieldV>,
                UnsupportedV,
            >(field_views(out@)),
        decreases fields@.len() - i,
    {
        proof {
            assert(fields@.take(i + 1).drop_last() =~= fields@.take(i as int));
        }
        match convert_type(&fields[i].ty, local_crate, rules) {
            Ok(t) => {
                let ghost before = out@;
                let f = RpcField { name: fields[i].name.clone(), ty: t };
                out.push(f);
                assert(field_views(out@) =~= field_views(before).push(f@));
            },
            Err(e) => {
                proof {
                    lemma_fields_prefix(fields@, local_crate@, rules, i + 1);
                }
                return Err(e);
            },
        }
        i = i + 1;
    }
    assert(fields@.take(i as int) =~= fields@);
    Ok(out)
}

proof fn lemma_fields_prefix(fs: Seq<FieldShape>, local: Seq<char>, rules: TypeRules, i: int)
    requires
        0 <= i <= fs.len(),
        spec_convert_fields(fs.take(i), local, rules) is Err,
    ensures
        spec_convert_fields(fs, local, rules) == spec_convert_fields(fs.take(i), local, rules),
    decreases fs.len(),
{
    if i < fs.len() {
        assert(fs.drop_last().take(i) =~= fs.take(i));
        lemma_fields_prefix(fs.drop_last(), local, rules, i);
    } else {
        assert(fs.take(i) =~= fs);
    }
}

fn copy_strings(v: &Vec<String>) -> (r: Vec<String>)
    ensures
        string_views(r@) == string_views(v@),
{
    let mut out: Vec<String> = Vec::new();
    let mut i: usize = 0;
    while i < v.len()
        invariant
            0 <= i <= v@.len(),
            string_views(out@) == string_views(v@).take(i as int),
        decreases v@.len() - i,
    {
        let ghost before = out@;
        let c = v[i].clone();
        assert(c@ == v@[i as int]@);
        out.push(c);
        assert(string_views(out@) =~= string_views(before).push(c@));
        assert(string_views(out@) =~= string_views(v@).take(i + 1));
        i = i + 1;
    }
    assert(string_views(v@).take(i as int) =~= string_views(v@));
    out
}

impl RpcTypeDef {
    /// The IDL definition of a type that the interface names.
    pub fn convert(def: &AdtShape, local_crate: &str, rules: TypeRules) -> (r: Result<RpcTypeDef, UnsupportedTypeError>)
        requires
            def matches AdtShape::Struct { fields, .. } ==> forall|j: int|
                0 <= j < fields@.len() ==> args_complete(#[trigger] fields@[j].ty, rules),
        ensures
            match r {
                Ok(d) => spec_convert_type_def(*def, local_crate@, rules) == Ok::<RpcTypeDefV, UnsupportedV>(d@),
                Err(e) => spec_convert_type_def(*def, local_crate@, rules) == Err::<RpcTypeDefV, UnsupportedV>(e@),
            },
    {
        match def {
            AdtShape::Enum { name, variants, payload_free } => {
                if !*payload_free {
                    return Err(UnsupportedTypeError::ComplexEnum);
                }
                Ok(RpcTypeDef::Enum { name: name.clone(), variants: copy_strings(variants) })
            },
            AdtShape::Struct { name, fields } => match convert_fields(fields, local_crate, rules) {
                Ok(fs) => Ok(RpcTypeDef::Struct { name: name.clone(), fields: fs }),
                Err(e) => Err(e),
            },
            AdtShape::Union { .. } => {
                proof {
                    reveal_strlit("union");
                }
                Err(UnsupportedTypeError::NotReprC(String::from_str("union")))
            },
        }
    }
}

impl StateConstructor {
    /// The constructor of the IDL: its inputs after the context, or every error.
    pub fn convert(inputs: &Vec<SrcTy>, local_crate: &str, rules: TypeRules) -> (r: Result<StateConstructor, Vec<UnsupportedTypeError>>)
        requires
            all_args_complete(inputs@, rules),
        ensures
            match r {
                Ok(c) => spec_convert_ctor(inputs@, local_crate@, rules) == Ok::<Seq<RpcTypeV>, Seq<UnsupportedV>>(
                    rpc_views(c.inputs@),
                ),
                Err(es) => spec_convert_ctor(inputs@, local_crate@, rules) == Err::<Seq<RpcTypeV>, Seq<UnsupportedV>>(
                    error_views(es@),
                ),
            },
    {
        let (oks, errs) = convert_each(inputs, 1, local_crate, rules);
        if errs.len() > 0 {
            Err(errs)
        } else {
            Ok(StateConstructor { inputs: oks })
        }
    }
}

impl RpcFunction {
    /// The function of the IDL: its inputs after `self` and the context, and what its
    /// `Result` holds (nothing for `()`), or every error.
    pub fn convert(f: &FnShape, local_crate: &str, rules: TypeRules) -> (r: Result<RpcFunction, Vec<UnsupportedTypeError>>)
        requires
            all_args_complete(f.inputs@, rules),
            f.output matches Some(t) ==> args_complete(t, rules),
            f.self_kind != SelfKind::Other,
        ensures
            match r {
                Ok(g) => spec_convert_function(*f, local_crate@, rules) == Ok::<RpcFunctionV, Seq<UnsupportedV>>(g@),
                Err(es) => spec_convert_function(*f, local_crate@, rules) == Err::<RpcFunctionV, Seq<UnsupportedV>>(
                    error_views(es@),
                ),
            },
    {
        let mutability = match f.self_kind {
            SelfKind::ImmRef => StateMutability::Immutable,
            _ => StateMutability::Mutable,
        };
        let (inputs, mut errs) = convert_each(&f.inputs, 2, local_crate, rules);
        let ghost before = errs@;
        let output: Option<RpcType> = match &f.output {
            None => None,
            Some(t) => match convert_type(t, local_crate, rules) {
                Ok(ret) => match ret {
                    RpcType::Tuple(ts) => {
                        proof {
                            lemma_rpc_views_len(ts@);
                        }
                        if ts.len() == 0 {
                            proof {
                                assert(rpc_views(ts@) =~= seq![]);
                            }
                            None
                        } else {
                            Some(RpcType::Tuple(ts))
                        }
                    },
                    other => Some(other),
                },
                Err(e) => {
                    errs.push(e);
                    assert(error_views(errs@) =~= error_views(before).push(e@));
                    None
                },
            },
        };
        if errs.len() > 0 {
            Err(errs)
        } else {
            Ok(RpcFunction { name: f.name.clone(), mutability, inputs, output })
        }
    }
}

pub open spec fn import_pair_views(v: Seq<(String, String)>) -> Seq<RpcImportV> {
    v.map_values(|p: (String, String)| RpcImportV { name: p.0@, version: p.1@ })
}

proof fn lemma_ctor_found(fns: Seq<FnShape>, local: Seq<char>, rules: TypeRules, i: int)
    requires
        0 <= i < fns.len(),
        fns[i].name@ == word_new(),
        spec_functions(fns, local, rules).0.len() == 0,
    ensures
        spec_functions(fns, local, rules).1 is Some,
    decreases fns.len(),
{
    let (errs, ctor, done) = spec_functions(fns.drop_last(), local, rules);
    if i < fns.len() - 1 {
        lemma_ctor_found(fns.drop_last(), local, rules, i);
    }
}

pub(crate) fn is_new(name: &String) -> (r: bool)
    ensures
        r == (name@ == word_new()),
{
    proof {
        reveal_strlit("new");
        assert("new"@ =~= word_new());
    }
    str_eq(name.as_str(), "new")
}

impl RpcInterface {
    /// The interface of service `name`, defined in crate `local_crate`: its imports
    /// (name and version), the type definitions it names, and its functions, of
    /// which `new` is the constructor; or every error, those of the type definitions
    /// first. The imports and the type definitions come as sets do: each once.
    pub fn convert(
        name: &str,
        imports: &Vec<(String, String)>,
        adt_defs: &Vec<AdtShape>,
        fns: &Vec<FnShape>,
        local_crate: &str,
        version: &str,
    ) -> (r: Result<RpcInterface, Vec<UnsupportedTypeError>>)
        requires
            import_pair_views(imports@).no_duplicates(),
            adt_defs@.no_duplicates(),
            interface_inputs_ok(adt_defs@, fns@, TypeRules::Oasis),
            spec_interface_errors(adt_defs@, fns@, local_crate@).len() > 0 || exists|i: int|
                0 <= i < fns@.len() && #[trigger] fns@[i].name@ == word_new(),
        ensures
            match r {
                Ok(intf) => {
                    &&& spec_interface_errors(adt_defs@, fns@, local_crate@).len() == 0
                    &&& intf@ == RpcInterfaceV {
                        name: name@,
                        namespace: local_crate@,
                        imports: import_pair_views(imports@),
                        type_defs: spec_type_defs(adt_defs@, local_crate@, TypeRules::Oasis).1,
                        constructor: spec_functions(fns@, local_crate@, TypeRules::Oasis).1->Some_0,
                        functions: spec_functions(fns@, local_crate@, TypeRules::Oasis).2,
                        version: version@,
                    }
                },
                Err(es) => {
                    &&& error_views(es@) == spec_interface_errors(adt_defs@, fns@, local_crate@)
                    &&& es@.len() > 0
                },
            },
    {
        let rules = TypeRules::Oasis;
        let mut imps: Vec<RpcImport> = Vec::new();
        let mut k: usize = 0;
        while k < imports.len()
            invariant
                0 <= k <= imports@.len(),
                import_views(imps@) == import_pair_views(imports@).take(k as int),
            decreases imports@.len() - k,
        {
            let ghost before = imps@;
            let imp = RpcImport { name: imports[k].0.clone(), version: imports[k].1.clone() };
            imps.push(imp);
            assert(import_views(imps@) =~= import_views(before).push(imp@));
            assert(import_views(imps@) =~= import_pair_views(imports@).take(k + 1));
            k = k + 1;
        }
        assert(import_pair_views(imports@).take(k as int) =~= import_pair_views(imports@));

        let mut errs: Vec<UnsupportedTypeError> = Vec::new();
        let mut type_defs: Vec<RpcTypeDef> = Vec::new();
        let mut i: usize = 0;
        assert(adt_defs@.take(0) =~= Seq::<AdtShape>::empty());
        assert(error_views(errs@) =~= Seq::<UnsupportedV>::empty());
        assert(type_def_views(type_defs@) =~= Seq::<RpcTypeDefV>::empty());
        while i < adt_defs.len()
            invariant
                0 <= i <= adt_defs@.len(),
                interface_inputs_ok(adt_defs@, fns@, rules),
                rules == TypeRules::Oasis,
                (error_views(errs@), type_def_views(type_defs@)) == spec_type_defs(
                    adt_defs@.take(i as int),
                    local_crate@,
                    rules,
                ),
            decreases adt_defs@.len() - i,
        {
            proof {
                assert(adt_defs@.take(i + 1).drop_last() =~= adt_defs@.take(i as int));
                assert(adt_defs@[i as int] matches AdtShape::Struct { fields, .. } ==> forall|j: int|
                    0 <= j < fields@.len() ==> args_complete(#[trigger] fields@[j].ty, rules));
            }
            match RpcTypeDef::convert(&adt_defs[i], local_crate, rules) {
                Ok(d) => {
                    let ghost before = type_defs@;
                    type_defs.push(d);
                    assert(type_def_views(type_defs@) =~= type_def_views(before).push(d@));
                },
                Err(e) => {
                    let ghost before = errs@;
                    errs.push(e);
                    assert(error_views(errs@) =~= error_views(before).push(e@));
                },
            }
            i = i + 1;
        }
        assert(adt_defs@.take(i as int) =~= adt_defs@);
        let ghost def_errs = error_views(errs@);

        let mut ctor: Option<StateConstructor> = None;
        let mut functions: Vec<RpcFunction> = Vec::new();
        let mut j: usize = 0;
        assert(fns@.take(0) =~= Seq::<FnShape>::empty());
        assert(function_views(functions@) =~= Seq::<RpcFunctionV>::empty());
        assert(def_errs + Seq::<UnsupportedV>::empty() =~= def_errs);
        while j < fns.len()
            invariant
                0 <= j <= fns@.len(),
                interface_inputs_ok(adt_defs@, fns@, rules),
                rules == TypeRules::Oasis,
                error_views(errs@) == def_errs + spec_functions(fns@.take(j as int), local_crate@, rules).0,
                match ctor {
                    Some(c) => spec_functions(fns@.take(j as int), local_crate@, rules).1 == Some(
                        rpc_views(c.inputs@),
                    ),
                    None => spec_functions(fns@.take(j as int), local_crate@, rules).1 is None,
                },
                function_views(functions@) == spec_functions(fns@.take(j as int), local_crate@, rules).2,
            decreases fns@.len() - j,
        {
            proof {
                assert(fns@.take(j + 1).drop_last() =~= fns@.take(j as int));
                assert(fns@.take(j + 1).last() == fns@[j as int]);
            }
            let ghost prev = spec_functions(fns@.take(j as int), local_crate@, rules);
            let ghost before = errs@;
            if is_new(&fns[j].name) {
                match StateConstructor::convert(&fns[j].inputs, local_crate, rules) {
                    Ok(c) => {
                        ctor = Some(c);
                    },
                    Err(es) => {
                        let mut es = es;
                        let ghost esv = error_views(es@);
                        errs.append(&mut es);
                        assert(error_views(errs@) =~= error_views(before) + esv);
                        assert(def_errs + (prev.0 + esv) =~= def_errs + prev.0 + esv);
                    },
                }
            } else {
                match RpcFunction::convert(&fns[j], local_crate, rules) {
                    Ok(g) => {
                        let ghost fb = functions@;
                        functions.push(g);
                        assert(function_views(functions@) =~= function_views(fb).push(g@));
                    },
                    Err(es) => {
                        let mut es = es;
                        let ghost esv = error_views(es@);
                        errs.append(&mut es);
                        assert(error_views(errs@) =~= error_views(before) + esv);
                        assert(def_errs + (prev.0 + esv) =~= def_errs + prev.0 + esv);
                    },
                }
            }
            j = j + 1;
        }
        assert(fns@.take(j as int) =~= fns@);
        if errs.len() > 0 {
            return Err(errs);
        }
        proof {
            if spec_interface_errors(adt_defs@, fns@, local_crate@).len() == 0 {
                let w = choose|i: int| 0 <= i < fns@.len() && #[trigger] fns@[i].name@ == word_new();
                lemma_ctor_found(fns@, local_crate@, rules, w);
            }
        }
        let constructor = ctor.unwrap();
        Ok(
            RpcInterface {
                name: string_from_chars(str_chars(name).as_slice()),
                namespace: string_from_chars(str_chars(local_crate).as_slice()),
                imports: imps,
                type_defs,
                constructor,
                functions,
                idl_gen_version: string_from_chars(str_chars(version).as_slice()),
            },
        )
    }
}

/// The three strings one after another.
pub fn join3(a: &str, b: &str, c: &str) -> (r: String)
    ensures
        r@ == a@ + b@ + c@,
{
    let mut v = str_chars(a);
    let y = str_chars(b);
    let z = str_chars(c);
    let ghost va = v@;
    let mut i: usize = 0;
    while i < y.len()
        invariant
            0 <= i <= y@.len(),
            v@ == va + y@.take(i as int),
        decreases y@.len() - i,
    {
        v.push(y[i]);
        i = i + 1;
        assert(v@ =~= va + y@.take(i as int));
    }
    assert(y@.take(i as int) =~= y@);
    let ghost vb = v@;
    let mut j: usize = 0;
    while j < z.len()
        invariant
            0 <= j <= z@.len(),
            v@ == vb + z@.take(j as int),
        decreases z@.len() - j,
    {
        v.push(z[j]);
        j = j + 1;
        assert(v@ =~= vb + z@.take(j as int));
    }
    assert(z@.take(j as int) =~= z@);
    string_from_chars(v.as_slice())
}

impl UnsupportedTypeError {
    /// What the error tells the user.
    pub fn message(&self) -> (r: String)
        ensures
            r@ == match self@ {
                UnsupportedV::NotReprC(t) => "`"@ + t + "` cannot be converted to an RPC type"@,
                UnsupportedV::ComplexEnum => "Tagged unions cannot (yet) be converted to an RPC type"@,
                UnsupportedV::Unimplemented(t) => "Unimplemented RPC type: `"@ + t + "`"@,
            },
    {
        match self {
            UnsupportedTypeError::NotReprC(t) => join3("`", t.as_str(), "` cannot be converted to an RPC type"),
            UnsupportedTypeError::ComplexEnum => {
                let r = join3("Tagged unions cannot (yet) be converted to an RPC type", "", "");
                proof {
                    reveal_strlit("");
                    assert(r@ =~= "Tagged unions cannot (yet) be converted to an RPC type"@);
                }
                r
            },
            UnsupportedTypeError::Unimplemented(t) => join3("Unimplemented RPC type: `", t.as_str(), "`"),
        }
    }
}

/// How deeply a type is wrapped as optional.
pub open spec fn optional_depth(t: RpcTypeV) -> nat
    decreases t,
{
    match t {
        RpcTypeV::Optional(e) => 1 + optional_depth(*e),
        _ => 0,
    }
}

/// `Option<T>` of a crate whose types are known by name is the optional form of what
/// `T` converts to, whenever `T` converts; so its IDL type never equals that of `T`.
pub proof fn law_option_converts_to_optional(
    crate_name: String,
    def_path: Vec<String>,
    args: Vec<SrcTy>,
    local: Seq<char>,
    rules: TypeRules,
)
    requires
        knows_crate(rules, crate_name@),
        last_comp(string_views(def_path@)) == "Option"@,
        args@.len() >= 1,
        spec_convert(args@[0], local, rules) is Ok,
    ensures
        ({
            let inner = spec_convert(args@[0], local, rules)->Ok_0;
            let ty = SrcTy::Named { crate_name, def_path, args };
            &&& spec_convert(ty, local, rules) == Ok::<RpcTypeV, UnsupportedV>(
                RpcTypeV::Optional(Box::new(inner)),
            )
            &&& optional_depth(spec_convert(ty, local, rules)->Ok_0) == optional_depth(inner) + 1
            &&& spec_convert(ty, local, rules) != spec_convert(args@[0], local, rules)
        }),
{
    reveal_strlit("Option");
    reveal_strlit("String");
    reveal_strlit("Vec");
    let last = last_comp(string_views(def_path@));
    assert(last != "String"@ && last != "Vec"@) by {
        assert(last.len() == 6);
        assert("String"@[0] != last[0]);
        assert("Vec"@.len() == 3);
    }
    assert(def_rule(rules, crate_name@, last) == DefRule::Option);
}

} // verus!
