//! The items of a contract interface trait, as the Ethereum ABI derivation sees them.
use vstd::prelude::*;
use vstd::utf8::encode_utf8;
use crate::path::string_from_chars;

verus! {

/// A parameter or return type: its source text and its Solidity ABI name
/// (e.g. `u32` and `uint32`).
pub struct Type {
    pub text: String,
    pub abi_name: String,
}

/// A method argument: its pattern (e.g. `indexed_from`) and its type.
pub struct Arg {
    pub pat: String,
    pub ty: Type,
}

/// The return type of a method.
pub enum ReturnType {
    /// No return type.
    Default,
    /// A single type.
    Type(Type),
    /// A tuple of types.
    Tuple(Vec<Type>),
}

/// The signature of a trait method: its name, its `self` argument as written (e.g.
/// `&mut self`; empty where there is none), its other arguments and its return type.
pub struct MethodSig {
    pub ident: String,
    pub receiver: String,
    pub inputs: Vec<Arg>,
    pub output: ReturnType,
}

/// An attribute: the segments of its path.
pub struct Attribute {
    pub path: Vec<String>,
}

/// A method declared in the trait.
pub struct TraitItemMethod {
    pub attrs: Vec<Attribute>,
    pub sig: MethodSig,
    /// Whether the method comes with a default body.
    pub has_default: bool,
    /// The method as written, for passing it through unchanged.
    pub text: String,
}

/// An item of the trait.
pub enum TraitItem {
    Method(TraitItemMethod),
    /// Any other item (a constant, a type, a macro), as source text.
    Other(String),
}

/// The item that the derivation is applied to.
pub enum SourceItem {
    Trait { ident: String, items: Vec<TraitItem> },
    /// Any other item, as source text.
    Other(String),
}

/// Represents an event of a smart contract.
pub struct Event {
    /// The name of the event.
    pub name: String,
    /// The canonical signature text, e.g. `Transfer(address,uint256)`.
    pub canonical: String,
    /// The signature of the event.
    pub method_sig: MethodSig,
    /// Indexed parameters (those whose pattern starts with `indexed_`).
    pub indexed: Vec<Arg>,
    /// Non-indexed parameters.
    pub data: Vec<Arg>,
}

/// Represents a function declared in the contract's interface.
pub struct Signature {
    /// The name of this signature.
    pub name: String,
    /// The canonical signature text, e.g. `transfer(address,uint256)`.
    pub canonical: String,
    /// The parameter information of this signature.
    pub method_sig: MethodSig,
    /// The function selector: the first four bytes of the Keccak-256 hash of the
    /// canonical text, big-endian.
    pub hash: u32,
    /// The arguments of this signature.
    pub arguments: Vec<Arg>,
    /// The return types of this signature.
    pub return_types: Vec<Type>,
    /// A constant signature cannot mutate chain state.
    pub is_constant: bool,
    /// Only a payable signature can be invoked with value.
    pub is_payable: bool,
}

/// An item within a contract trait.
pub enum Item {
    /// An invokable function.
    Signature(Signature),
    /// An event.
    Event(Event),
    /// Some trait item that is unsupported and unhandled as of now.
    Other(TraitItem),
}

/// The entire interface that is being defined by the attributed trait.
pub struct Interface {
    /// The name of the contract trait.
    name: String,
    /// The constructor: the signature named `constructor`.
    constructor: Option<Signature>,
    /// The other trait items.
    items: Vec<Item>,
}

// ---------------------------------------------------------------- models

pub struct TypeV {
    pub text: Seq<char>,
    pub abi_name: Seq<char>,
}

pub struct ArgV {
    pub pat: Seq<char>,
    pub ty: TypeV,
}

pub enum ReturnTypeV {
    Default,
    Type(TypeV),
    Tuple(Seq<TypeV>),
}

pub struct MethodSigV {
    pub ident: Seq<char>,
    pub receiver: Seq<char>,
    pub inputs: Seq<ArgV>,
    pub output: ReturnTypeV,
}

pub enum TraitItemV {
    Method { attrs: Seq<Seq<Seq<char>>>, sig: MethodSigV, has_default: bool, text: Seq<char> },
    Other(Seq<char>),
}

pub struct EventV {
    pub name: Seq<char>,
    pub canonical: Seq<char>,
    pub method_sig: MethodSigV,
    pub indexed: Seq<ArgV>,
    pub data: Seq<ArgV>,
}

pub struct SignatureV {
    pub name: Seq<char>,
    pub canonical: Seq<char>,
    pub method_sig: MethodSigV,
    pub hash: u32,
    pub arguments: Seq<ArgV>,
    pub return_types: Seq<TypeV>,
    pub is_constant: bool,
    pub is_payable: bool,
}

pub enum ItemV {
    Signature(SignatureV),
    Event(EventV),
    Other(TraitItemV),
}

pub struct InterfaceV {
    pub name: Seq<char>,
    pub constructor: Option<SignatureV>,
    pub items: Seq<ItemV>,
}

impl View for Type {
    type V = TypeV;

    open spec fn view(&self) -> TypeV {
        TypeV { text: self.text@, abi_name: self.abi_name@ }
    }
}

impl View for Arg {
    type V = ArgV;

    open spec fn view(&self) -> ArgV {
        ArgV { pat: self.pat@, ty: self.ty@ }
    }
}

pub open spec fn type_views(v: Seq<Type>) -> Seq<TypeV> {
    v.map_values(|t: Type| t@)
}

pub open spec fn arg_views(v: Seq<Arg>) -> Seq<ArgV> {
    v.map_values(|a: Arg| a@)
}

pub open spec fn string_views(v: Seq<String>) -> Seq<Seq<char>> {
    v.map_values(|s: String| s@)
}

impl View for ReturnType {
    type V = ReturnTypeV;

    open spec fn view(&self) -> ReturnTypeV {
        match self {
            ReturnType::Default => ReturnTypeV::Default,
            ReturnType::Type(t) => ReturnTypeV::Type(t@),
            ReturnType::Tuple(ts) => ReturnTypeV::Tuple(type_views(ts@)),
        }
    }
}

impl View for MethodSig {
    type V = MethodSigV;

    open spec fn view(&self) -> MethodSigV {
        MethodSigV {
            ident: self.ident@,
            receiver: self.receiver@,
            inputs: arg_views(self.inputs@),
            output: self.output@,
        }
    }
}

impl View for Attribute {
    type V = Seq<Seq<char>>;

    open spec fn view(&self) -> Seq<Seq<char>> {
        string_views(self.path@)
    }
}

pub open spec fn attr_views(v: Seq<Attribute>) -> Seq<Seq<Seq<char>>> {
    v.map_values(|a: Attribute| a@)
}

impl View for TraitItem {
    type V = TraitItemV;

    open spec fn view(&self) -> TraitItemV {
        match self {
            TraitItem::Method(m) => TraitItemV::Method {
                attrs: attr_views(m.attrs@),
                sig: m.sig@,
                has_default: m.has_default,
                text: m.text@,
            },
            TraitItem::Other(s) => TraitItemV::Other(s@),
        }
    }
}

impl View for Event {
    type V = EventV;

    open spec fn view(&self) -> EventV {
        EventV {
            name: self.name@,
            canonical: self.canonical@,
            method_sig: self.method_sig@,
            indexed: arg_views(self.indexed@),
            data: arg_views(self.data@),
        }
    }
}

impl View for Signature {
    type V = SignatureV;

    open spec fn view(&self) -> SignatureV {
        SignatureV {
            name: self.name@,
            canonical: self.canonical@,
            method_sig: self.method_sig@,
            hash: self.hash,
            arguments: arg_views(self.arguments@),
            return_types: type_views(self.return_types@),
            is_constant: self.is_constant,
            is_payable: self.is_payable,
        }
    }
}

impl View for Item {
    type V = ItemV;

    open spec fn view(&self) -> ItemV {
        match self {
            Item::Signature(s) => ItemV::Signature(s@),
            Item::Event(e) => ItemV::Event(e@),
            Item::Other(t) => ItemV::Other(t@),
        }
    }
}

pub open spec fn item_views(v: Seq<Item>) -> Seq<ItemV> {
    v.map_values(|i: Item| i@)
}

impl View for Interface {
    type V = InterfaceV;

    closed spec fn view(&self) -> InterfaceV {
        InterfaceV {
            name: self.name@,
            constructor: match self.constructor {
                Some(s) => Some(s@),
                None => None,
            },
            items: item_views(self.items@),
        }
    }
}

// ---------------------------------------------------------------- the derivation's rules

/// The name of the constructor.
pub open spec fn word_constructor() -> Seq<char> {
    seq!['c', 'o', 'n', 's', 't', 'r', 'u', 'c', 't', 'o', 'r']
}

/// The prefix of the pattern of an indexed event parameter.
pub open spec fn word_indexed() -> Seq<char> {
    seq!['i', 'n', 'd', 'e', 'x', 'e', 'd', '_']
}

/// Whether some attribute's path starts with `name`.
pub open spec fn has_attr(attrs: Seq<Seq<Seq<char>>>, name: Seq<char>) -> bool {
    exists|i: int| 0 <= i < attrs.len() && attrs[i].len() > 0 && #[trigger] attrs[i][0] == name
}

/// The ABI names of the argument types, separated by commas.
pub open spec fn join_abi_names(args: Seq<ArgV>) -> Seq<char>
    decreases args.len(),
{
    if args.len() == 0 {
        seq![]
    } else if args.len() == 1 {
        args[0].ty.abi_name
    } else {
        join_abi_names(args.drop_last()) + seq![','] + args.last().ty.abi_name
    }
}

/// The canonical text of a function or event: `name(type1,type2,...)`.
pub open spec fn canonical_text(name: Seq<char>, args: Seq<ArgV>) -> Seq<char> {
    name + seq!['('] + join_abi_names(args) + seq![')']
}

/// The Keccak-256 hash of some bytes.
pub uninterp spec fn spec_keccak256(data: Seq<u8>) -> Seq<u8>;

/// The big-endian integer in the first four bytes.
pub open spec fn be_u32(b: Seq<u8>) -> u32 {
    (b[0] as int * 0x1000000 + b[1] as int * 0x10000 + b[2] as int * 0x100 + b[3] as int) as u32
}

/// The function selector of a canonical text.
pub open spec fn selector(canonical: Seq<char>) -> u32 {
    be_u32(spec_keccak256(encode_utf8(canonical)))
}

/// The return types a method declares: none, one, or the elements of a tuple.
pub open spec fn return_types_of(output: ReturnTypeV) -> Seq<TypeV> {
    match output {
        ReturnTypeV::Default => seq![],
        ReturnTypeV::Type(t) => seq![t],
        ReturnTypeV::Tuple(ts) => ts,
    }
}

pub open spec fn spec_into_signature(name: Seq<char>, sig: MethodSigV, is_constant: bool, is_payable: bool) -> SignatureV {
    let canonical = canonical_text(name, sig.inputs);
    SignatureV {
        name,
        canonical,
        method_sig: sig,
        hash: selector(canonical),
        arguments: sig.inputs,
        return_types: return_types_of(sig.output),
        is_constant,
        is_payable,
    }
}

pub open spec fn is_indexed(a: ArgV) -> bool {
    a.pat.len() >= 8 && a.pat.take(8) == word_indexed()
}

/// The arguments that are (or are not) indexed, in order.
pub open spec fn args_where_indexed(args: Seq<ArgV>, indexed: bool) -> Seq<ArgV>
    decreases args.len(),
{
    if args.len() == 0 {
        seq![]
    } else if is_indexed(args.last()) == indexed {
        args_where_indexed(args.drop_last(), indexed).push(args.last())
    } else {
        args_where_indexed(args.drop_last(), indexed)
    }
}

pub open spec fn spec_event(sig: MethodSigV) -> EventV {
    EventV {
        name: sig.ident,
        canonical: canonical_text(sig.ident, sig.inputs),
        method_sig: sig,
        indexed: args_where_indexed(sig.inputs, true),
        data: args_where_indexed(sig.inputs, false),
    }
}

/// Whether the derivation accepts a trait item: an event is not the constructor,
/// and a function is not both constant and payable, nor a constant constructor.
pub open spec fn trait_item_ok(t: TraitItemV) -> bool {
    match t {
        TraitItemV::Method { attrs, sig, has_default, .. } => has_default || if has_attr(attrs, "event"@) {
            sig.ident != word_constructor()
        } else {
            let constant = has_attr(attrs, "constant"@);
            let payable = has_attr(attrs, "payable"@);
            !(constant && payable) && !(sig.ident == word_constructor() && constant)
        },
        TraitItemV::Other(_) => true,
    }
}

/// The item that a trait item becomes: a method with a default body is left alone,
/// an `#[event]` method is an event, and any other method is a function.
pub open spec fn spec_item(t: TraitItemV) -> ItemV {
    match t {
        TraitItemV::Method { attrs, sig, has_default, .. } => if has_default {
            ItemV::Other(t)
        } else if has_attr(attrs, "event"@) {
            ItemV::Event(spec_event(sig))
        } else {
            ItemV::Signature(
                spec_into_signature(
                    sig.ident,
                    sig,
                    has_attr(attrs, "constant"@),
                    has_attr(attrs, "payable"@),
                ),
            )
        },
        TraitItemV::Other(_) => ItemV::Other(t),
    }
}

pub open spec fn item_name(i: ItemV) -> Option<Seq<char>> {
    match i {
        ItemV::Signature(s) => Some(s.name),
        ItemV::Event(e) => Some(e.name),
        ItemV::Other(_) => None,
    }
}

pub open spec fn is_constructor_item(i: ItemV) -> bool {
    item_name(i) == Some(word_constructor())
}

/// The first constructor among the items.
pub open spec fn first_constructor(items: Seq<ItemV>) -> Option<SignatureV>
    decreases items.len(),
{
    if items.len() == 0 {
        None
    } else {
        match first_constructor(items.drop_last()) {
            Some(c) => Some(c),
            None => match items.last() {
                ItemV::Signature(s) => if s.name == word_constructor() {
                    Some(s)
                } else {
                    None
                },
                _ => None,
            },
        }
    }
}

/// The items that are not constructors, in order.
pub open spec fn non_constructors(items: Seq<ItemV>) -> Seq<ItemV>
    decreases items.len(),
{
    if items.len() == 0 {
        seq![]
    } else if is_constructor_item(items.last()) {
        non_constructors(items.drop_last())
    } else {
        non_constructors(items.drop_last()).push(items.last())
    }
}

pub open spec fn spec_items(items: Seq<TraitItemV>) -> Seq<ItemV> {
    items.map_values(|t: TraitItemV| spec_item(t))
}

/// The interface of a trait: its name, its first function named `constructor`,
/// and its other items in order.
pub open spec fn spec_interface(ident: Seq<char>, items: Seq<TraitItemV>) -> InterfaceV {
    InterfaceV {
        name: ident,
        constructor: first_constructor(spec_items(items)),
        items: non_constructors(spec_items(items)),
    }
}

pub open spec fn trait_item_views(v: Seq<TraitItem>) -> Seq<TraitItemV> {
    v.map_values(|t: TraitItem| t@)
}

// ---------------------------------------------------------------- executable

/// The Keccak-256 hash of some bytes (`tiny_keccak::keccak256`); the contract claims
/// only that the result is `spec_keccak256` of the bytes, a function of them alone.
#[verifier::external_body]
pub(crate) fn keccak256(data: &[u8]) -> (r: [u8; 32])
    ensures
        r@ == spec_keccak256(data@),
{
    tiny_keccak::keccak256(data)
}

pub(crate) fn copy_string(s: &String) -> (r: String)
    ensures
        r@ == s@,
{
    s.clone()
}

impl Type {
    pub fn duplicate(&self) -> (r: Type)
        ensures
            r@ == self@,
    {
        Type { text: copy_string(&self.text), abi_name: copy_string(&self.abi_name) }
    }
}

impl Arg {
    pub fn duplicate(&self) -> (r: Arg)
        ensures
            r@ == self@,
    {
        Arg { pat: copy_string(&self.pat), ty: self.ty.duplicate() }
    }
}

pub(crate) fn duplicate_types(v: &Vec<Type>) -> (r: Vec<Type>)
    ensures
        type_views(r@) == type_views(v@),
{
    let mut r: Vec<Type> = Vec::new();
    let mut i: usize = 0;
    while i < v.len()
        invariant
            0 <= i <= v@.len(),
            type_views(r@) == type_views(v@).take(i as int),
        decreases v@.len() - i,
    {
        let ghost before = r@;
        let t = v[i].duplicate();
        let ghost tv = t@;
        r.push(t);
        assert(type_views(r@) =~= type_views(before).push(tv));
        assert(type_views(r@) =~= type_views(v@).take(i + 1));
        i = i + 1;
    }
    assert(type_views(v@).take(i as int) =~= type_views(v@));
    r
}

pub(crate) fn duplicate_args(v: &Vec<Arg>) -> (r: Vec<Arg>)
    ensures
        arg_views(r@) == arg_views(v@),
{
    let mut r: Vec<Arg> = Vec::new();
    let mut i: usize = 0;
    while i < v.len()
        invariant
            0 <= i <= v@.len(),
            arg_views(r@) == arg_views(v@).take(i as int),
        decreases v@.len() - i,
    {
        let ghost before = r@;
        let a = v[i].duplicate();
        let ghost av = a@;
        r.push(a);
        assert(arg_views(r@) =~= arg_views(before).push(av));
        assert(arg_views(r@) =~= arg_views(v@).take(i + 1));
        i = i + 1;
    }
    assert(arg_views(v@).take(i as int) =~= arg_views(v@));
    r
}

/// Whether some attribute's path starts with `name`.
fn has_attribute(attrs: &Vec<Attribute>, name: &str) -> (r: bool)
    ensures
        r == has_attr(attr_views(attrs@), name@),
{
    let wanted = crate::path::str_chars(name);
    let mut i: usize = 0;
    while i < attrs.len()
        invariant
            0 <= i <= attrs@.len(),
            wanted@ == name@,
            forall|k: int|
                0 <= k < i ==> !(attr_views(attrs@)[k].len() > 0 && #[trigger] attr_views(attrs@)[k][0]
                    == name@),
        decreases attrs@.len() - i,
    {
        assert(attr_views(attrs@)[i as int] == string_views(attrs@[i as int].path@));
        if attrs[i].path.len() > 0 {
            let first = crate::path::str_chars(attrs[i].path[0].as_str());
            if chars_equal(&first, &wanted) {
                assert(attr_views(attrs@)[i as int][0] == name@);
                return true;
            }
        }
        i = i + 1;
    }
    false
}

fn chars_equal(a: &Vec<char>, b: &Vec<char>) -> (r: bool)
    ensures
        r == (a@ == b@),
{
    if a.len() != b.len() {
        return false;
    }
    let mut i: usize = 0;
    while i < a.len()
        invariant
            a@.len() == b@.len(),
            0 <= i <= a@.len(),
            forall|k: int| 0 <= k < i ==> a@[k] == b@[k],
        decreases a@.len() - i,
    {
        if a[i] != b[i] {
            return false;
        }
        i = i + 1;
    }
    assert(a@ =~= b@);
    true
}

/// The canonical text of a function or event.
fn canonicalize_fn(name: &String, args: &Vec<Arg>) -> (r: String)
    ensures
        r@ == canonical_text(name@, arg_views(args@)),
{
    let mut out = crate::path::str_chars(name.as_str());
    let ghost prefix = name@ + seq!['('];
    out.push('(');
    assert(out@ =~= prefix);
    let mut i: usize = 0;
    while i < args.len()
        invariant
            0 <= i <= args@.len(),
            out@ == prefix + join_abi_names(arg_views(args@).take(i as int)),
        decreases args@.len() - i,
    {
        let ghost before = out@;
        if i > 0 {
            out.push(',');
        }
        let abi = crate::path::str_chars(args[i].ty.abi_name.as_str());
        let mut k: usize = 0;
        let ghost base = out@;
        while k < abi.len()
            invariant
                0 <= k <= abi@.len(),
                out@ == base + abi@.take(k as int),
            decreases abi@.len() - k,
        {
            out.push(abi[k]);
            k = k + 1;
            assert(out@ =~= base + abi@.take(k as int));
        }
        let ghost t = arg_views(args@).take(i + 1);
        assert(t.drop_last() =~= arg_views(args@).take(i as int));
        assert(abi@.take(k as int) =~= abi@);
        if i == 0 {
            assert(out@ =~= prefix + t[0].ty.abi_name);
        } else {
            assert(out@ =~= prefix + (join_abi_names(t.drop_last()) + seq![','] + t.last().ty.abi_name));
        }
        i = i + 1;
    }
    assert(arg_views(args@).take(i as int) =~= arg_views(args@));
    out.push(')');
    assert(out@ =~= canonical_text(name@, arg_views(args@)));
    string_from_chars(out.as_slice())
}

/// The function selector of a canonical text.
fn function_selector(canonical: &String) -> (r: u32)
    ensures
        r == selector(canonical@),
{
    let h = keccak256(canonical.as_str().as_bytes());
    let v: u32 = h[0] as u32 * 0x1000000 + h[1] as u32 * 0x10000 + h[2] as u32 * 0x100 + h[3] as u32;
    v
}

fn into_signature(ident: String, method_sig: MethodSig, is_constant: bool, is_payable: bool) -> (r: Signature)
    ensures
        r@ == spec_into_signature(ident@, method_sig@, is_constant, is_payable),
{
    let arguments = duplicate_args(&method_sig.inputs);
    let return_types: Vec<Type> = match &method_sig.output {
        ReturnType::Default => Vec::new(),
        ReturnType::Type(t) => {
            let mut v: Vec<Type> = Vec::new();
            v.push(t.duplicate());
            v
        },
        ReturnType::Tuple(ts) => duplicate_types(ts),
    };
    let canonical = canonicalize_fn(&ident, &method_sig.inputs);
    let hash = function_selector(&canonical);
    let r = Signature {
        name: ident,
        canonical,
        method_sig,
        hash,
        arguments,
        return_types,
        is_constant,
        is_payable,
    };
    proof {
        assert(type_views(r.return_types@) =~= return_types_of(r.method_sig@.output));
    }
    r
}

fn is_indexed_arg(a: &Arg) -> (r: bool)
    ensures
        r == is_indexed(a@),
{
    let pat = crate::path::str_chars(a.pat.as_str());
    if pat.len() < 8 {
        return false;
    }
    let r = pat[0] == 'i' && pat[1] == 'n' && pat[2] == 'd' && pat[3] == 'e' && pat[4] == 'x'
        && pat[5] == 'e' && pat[6] == 'd' && pat[7] == '_';
    proof {
        if r {
            assert(pat@.take(8) =~= word_indexed());
        } else {
            assert(pat@.take(8) != word_indexed()) by {
                let w = word_indexed();
                assert(pat@.take(8)[0] != w[0] || pat@.take(8)[1] != w[1] || pat@.take(8)[2] != w[2]
                    || pat@.take(8)[3] != w[3] || pat@.take(8)[4] != w[4] || pat@.take(8)[5] != w[5]
                    || pat@.take(8)[6] != w[6] || pat@.take(8)[7] != w[7]);
            }
        }
    }
    r
}

impl Item {
    /// Returns the name of a function or event.
    pub fn name(&self) -> (r: Option<&String>)
        ensures
            match r {
                Some(n) => item_name(self@) == Some(n@),
                None => item_name(self@) is None,
            },
    {
        match self {
            Item::Signature(sig) => Some(&sig.name),
            Item::Event(event) => Some(&event.name),
            Item::Other(_) => None,
        }
    }

    fn event_from_trait_item(method_sig: MethodSig) -> (r: Item)
        requires
            method_sig@.ident != word_constructor(),
        ensures
            r@ == ItemV::Event(spec_event(method_sig@)),
    {
        let mut indexed: Vec<Arg> = Vec::new();
        let mut data: Vec<Arg> = Vec::new();
        let mut i: usize = 0;
        let ghost inputs = arg_views(method_sig.inputs@);
        while i < method_sig.inputs.len()
            invariant
                0 <= i <= method_sig.inputs@.len(),
                inputs == arg_views(method_sig.inputs@),
                arg_views(indexed@) == args_where_indexed(inputs.take(i as int), true),
                arg_views(data@) == args_where_indexed(inputs.take(i as int), false),
            decreases method_sig.inputs@.len() - i,
        {
            let a = method_sig.inputs[i].duplicate();
            assert(inputs.take(i + 1).drop_last() =~= inputs.take(i as int));
            assert(inputs.take(i + 1).last() == a@);
            let ghost bi = indexed@;
            let ghost bd = data@;
            if is_indexed_arg(&a) {
                indexed.push(a);
                assert(arg_views(indexed@) =~= arg_views(bi).push(inputs[i as int]));
            } else {
                data.push(a);
                assert(arg_views(data@) =~= arg_views(bd).push(inputs[i as int]));
            }
            i = i + 1;
        }
        assert(inputs.take(i as int) =~= inputs);
        let canonical = canonicalize_fn(&method_sig.ident, &method_sig.inputs);
        let name = copy_string(&method_sig.ident);
        Item::Event(Event { name, canonical, method_sig, indexed, data })
    }

    fn signature_from_trait_item(method_trait_item: TraitItemMethod) -> (r: Item)
        requires
            ({
                let constant = has_attr(attr_views(method_trait_item.attrs@), "constant"@);
                let payable = has_attr(attr_views(method_trait_item.attrs@), "payable"@);
                !(constant && payable) && !(method_trait_item.sig@.ident == word_constructor()
                    && constant)
            }),
        ensures
            r@ == ItemV::Signature(
                spec_into_signature(
                    method_trait_item.sig@.ident,
                    method_trait_item.sig@,
                    has_attr(attr_views(method_trait_item.attrs@), "constant"@),
                    has_attr(attr_views(method_trait_item.attrs@), "payable"@),
                ),
            ),
    {
        let constant = has_attribute(&method_trait_item.attrs, "constant");
        let payable = has_attribute(&method_trait_item.attrs, "payable");
        let ident = copy_string(&method_trait_item.sig.ident);
        Item::Signature(into_signature(ident, method_trait_item.sig, constant, payable))
    }

    /// Classifies a trait item: a method with a default body is left alone, an
    /// `#[event]` method becomes an event, any other method a function.
    pub fn from_trait_item(source: TraitItem) -> (r: Item)
        requires
            trait_item_ok(source@),
        ensures
            r@ == spec_item(source@),
    {
        match source {
            TraitItem::Method(method_trait_item) => {
                if method_trait_item.has_default {
                    return Item::Other(TraitItem::Method(method_trait_item));
                }
                if has_attribute(&method_trait_item.attrs, "event") {
                    return Self::event_from_trait_item(method_trait_item.sig);
                }
                Self::signature_from_trait_item(method_trait_item)
            },
            trait_item => Item::Other(trait_item),
        }
    }
}

fn is_constructor_name(name: &String) -> (r: bool)
    ensures
        r == (name@ == word_constructor()),
{
    let n = crate::path::str_chars(name.as_str());
    let mut w: Vec<char> = Vec::new();
    w.push('c');
    w.push('o');
    w.push('n');
    w.push('s');
    w.push('t');
    w.push('r');
    w.push('u');
    w.push('c');
    w.push('t');
    w.push('o');
    w.push('r');
    assert(w@ =~= word_constructor());
    chars_equal(&n, &w)
}

/// Why the derivation refuses a trait item.
pub enum TraitItemProblem {
    /// An `#[event]` method named `constructor`.
    EventConstructor,
    /// A method (named here) marked both `#[constant]` and `#[payable]`.
    ConstantAndPayable(String),
    /// A `#[constant]` constructor.
    ConstantConstructor,
}

pub enum TraitItemProblemV {
    EventConstructor,
    ConstantAndPayable(Seq<char>),
    ConstantConstructor,
}

impl View for TraitItemProblem {
    type V = TraitItemProblemV;

    open spec fn view(&self) -> TraitItemProblemV {
        match self {
            TraitItemProblem::EventConstructor => TraitItemProblemV::EventConstructor,
            TraitItemProblem::ConstantAndPayable(n) => TraitItemProblemV::ConstantAndPayable(n@),
            TraitItemProblem::ConstantConstructor => TraitItemProblemV::ConstantConstructor,
        }
    }
}

/// What the derivation finds wrong with a trait item, checked in this order: an event
/// named `constructor`; a function both constant and payable; a constant constructor.
pub open spec fn spec_trait_item_problem(t: TraitItemV) -> Option<TraitItemProblemV> {
    match t {
        TraitItemV::Method { attrs, sig, has_default, .. } => if has_default {
            None
        } else if has_attr(attrs, "event"@) {
            if sig.ident == word_constructor() {
                Some(TraitItemProblemV::EventConstructor)
            } else {
                None
            }
        } else if has_attr(attrs, "constant"@) && has_attr(attrs, "payable"@) {
            Some(TraitItemProblemV::ConstantAndPayable(sig.ident))
        } else if sig.ident == word_constructor() && has_attr(attrs, "constant"@) {
            Some(TraitItemProblemV::ConstantConstructor)
        } else {
            None
        },
        TraitItemV::Other(_) => None,
    }
}

/// What the derivation finds wrong with a trait item, if anything: exactly the items
/// it accepts have no problem.
pub fn trait_item_problem(item: &TraitItem) -> (r: Option<TraitItemProblem>)
    ensures
        match r {
            Some(p) => spec_trait_item_problem(item@) == Some(p@),
            None => spec_trait_item_problem(item@) is None,
        },
        r is None <==> trait_item_ok(item@),
{
    let m = match item {
        TraitItem::Method(m) => m,
        TraitItem::Other(_) => return None,
    };
    if m.has_default {
        return None;
    }
    let is_ctor = is_constructor_name(&m.sig.ident);
    if has_attribute(&m.attrs, "event") {
        return if is_ctor {
            Some(TraitItemProblem::EventConstructor)
        } else {
            None
        };
    }
    let constant = has_attribute(&m.attrs, "constant");
    let payable = has_attribute(&m.attrs, "payable");
    if constant && payable {
        Some(TraitItemProblem::ConstantAndPayable(copy_string(&m.sig.ident)))
    } else if is_ctor && constant {
        Some(TraitItemProblem::ConstantConstructor)
    } else {
        None
    }
}

impl Interface {
    /// Builds the interface of a trait.
    pub fn from_item(source: SourceItem) -> (r: Interface)
        requires
            source is Trait,
            forall|i: int|
                0 <= i < source->items@.len() ==> trait_item_ok(#[trigger] source->items@[i]@),
        ensures
            r@ == spec_interface(source->ident@, trait_item_views(source->items@)),
    {
        let (ident, mut items) = match source {
            SourceItem::Trait { ident, items } => (ident, items),
            SourceItem::Other(_) => {
                proof {
                    assert(false);
                }
                return Interface { name: String::new(), constructor: None, items: Vec::new() };
            },
        };
        let ghost all = trait_item_views(items@);
        let n0 = items.len();
        assert(all.len() == n0);
        let ghost converted = spec_items(all);
        let mut constructor: Option<Signature> = None;
        let mut others: Vec<Item> = Vec::new();
        let mut k: usize = 0;
        while items.len() > 0
            invariant
                k + items@.len() == all.len(),
                all.len() <= usize::MAX,
                converted == spec_items(all),
                trait_item_views(items@) == all.skip(k as int),
                forall|i: int| 0 <= i < all.len() ==> trait_item_ok(#[trigger] all[i]),
                match constructor {
                    Some(c) => first_constructor(converted.take(k as int)) == Some(c@),
                    None => first_constructor(converted.take(k as int)) is None,
                },
                item_views(others@) == non_constructors(converted.take(k as int)),
            decreases items@.len(),
        {
            let ghost before_items = items@;
            let t = items.remove(0);
            proof {
                assert(trait_item_views(before_items)[0] == t@);
                assert(all[k as int] == t@);
                assert(items@ =~= before_items.subrange(1, before_items.len() as int));
                assert(trait_item_views(items@) =~= trait_item_views(before_items).skip(1));
                assert(all.skip(k as int).skip(1) =~= all.skip(k + 1));
                assert(trait_item_views(items@) =~= all.skip(k + 1));
            }
            let item = Item::from_trait_item(t);
            let ghost iv = item@;
            proof {
                assert(converted[k as int] == iv);
                assert(converted.take(k + 1).drop_last() =~= converted.take(k as int));
                assert(converted.take(k + 1).last() == iv);
            }
            let is_ctor = match item.name() {
                Some(n) => is_constructor_name(n),
                None => false,
            };
            if is_ctor {
                match item {
                    Item::Signature(sig) => {
                        if constructor.is_none() {
                            constructor = Some(sig);
                        }
                    },
                    _ => {},
                }
            } else {
                let ghost bo = others@;
                others.push(item);
                proof {
                    assert(item_views(others@) =~= item_views(bo).push(iv));
                }
            }
            k = k + 1;
        }
        proof {
            assert(converted.take(k as int) =~= converted);
        }
        Interface { name: ident, constructor, items: others }
    }

    pub fn items(&self) -> (r: &Vec<Item>)
        ensures
            item_views(r@) == self@.items,
    {
        &self.items
    }

    pub fn name(&self) -> (r: &String)
        ensures
            r@ == self@.name,
    {
        &self.name
    }

    pub fn constructor(&self) -> (r: Option<&Signature>)
        ensures
            match r {
                Some(s) => self@.constructor == Some(s@),
                None => self@.constructor is None,
            },
    {
        self.constructor.as_ref()
    }
}

} // verus!
