//! What the Ethereum ABI derivation generates for a contract interface: the dispatch of
//! its endpoint, the calls of its client, and the log that each event method writes.
use vstd::prelude::*;
use crate::abi_items::{
    arg_views, be_u32, copy_string, duplicate_args, duplicate_types, keccak256, string_views,
    Arg, ArgV, Event, Interface, InterfaceV, Item, ItemV, MethodSig, MethodSigV,
    ReturnType, Signature, SignatureV, spec_keccak256, item_views,
};
use vstd::utf8::encode_utf8;

verus! {

/// An arm of the endpoint's dispatch: the selector it answers, the method it calls, the
/// types of the arguments it decodes for that method, in order, whether it refuses a
/// call that carries value (the method is not payable), and how many values it encodes
/// in the reply (none where the method returns nothing).
pub struct DispatchArm {
    pub selector: u32,
    pub method: String,
    pub arg_types: Vec<String>,
    pub refuses_value: bool,
    pub return_count: usize,
}

/// The endpoint's call of the constructor: the types of the arguments it decodes and
/// whether it refuses value.
pub struct ConstructorCall {
    pub arg_types: Vec<String>,
    pub refuses_value: bool,
}

/// What the endpoint of an interface dispatches.
pub struct EndpointPlan {
    pub constructor: Option<ConstructorCall>,
    pub arms: Vec<DispatchArm>,
}

pub struct DispatchArmV {
    pub selector: u32,
    pub method: Seq<char>,
    pub arg_types: Seq<Seq<char>>,
    pub refuses_value: bool,
    pub return_count: nat,
}

pub struct ConstructorCallV {
    pub arg_types: Seq<Seq<char>>,
    pub refuses_value: bool,
}

pub struct EndpointPlanV {
    pub constructor: Option<ConstructorCallV>,
    pub arms: Seq<DispatchArmV>,
}

impl View for DispatchArm {
    type V = DispatchArmV;

    open spec fn view(&self) -> DispatchArmV {
        DispatchArmV {
            selector: self.selector,
            method: self.method@,
            arg_types: string_views(self.arg_types@),
            refuses_value: self.refuses_value,
            return_count: self.return_count as nat,
        }
    }
}

impl View for ConstructorCall {
    type V = ConstructorCallV;

    open spec fn view(&self) -> ConstructorCallV {
        ConstructorCallV { arg_types: string_views(self.arg_types@), refuses_value: self.refuses_value }
    }
}

pub open spec fn arm_views(v: Seq<DispatchArm>) -> Seq<DispatchArmV> {
    v.map_values(|a: DispatchArm| a@)
}

impl View for EndpointPlan {
    type V = EndpointPlanV;

    open spec fn view(&self) -> EndpointPlanV {
        EndpointPlanV {
            constructor: match self.constructor {
                Some(c) => Some(c@),
                None => None,
            },
            arms: arm_views(self.arms@),
        }
    }
}

/// The source text of each argument's type, in order.
pub open spec fn arg_type_texts(args: Seq<ArgV>) -> Seq<Seq<char>> {
    args.map_values(|a: ArgV| a.ty.text)
}

/// The pattern of each argument, in order.
pub open spec fn arg_pats(args: Seq<ArgV>) -> Seq<Seq<char>> {
    args.map_values(|a: ArgV| a.pat)
}

pub open spec fn spec_dispatch_arm(s: SignatureV) -> DispatchArmV {
    DispatchArmV {
        selector: s.hash,
        method: s.name,
        arg_types: arg_type_texts(s.arguments),
        refuses_value: !s.is_payable,
        return_count: s.return_types.len(),
    }
}

pub open spec fn spec_constructor_call(s: SignatureV) -> ConstructorCallV {
    ConstructorCallV { arg_types: arg_type_texts(s.arguments), refuses_value: !s.is_payable }
}

/// One arm for each function of the interface, in order; events and other items get none.
pub open spec fn dispatch_arms(items: Seq<ItemV>) -> Seq<DispatchArmV>
    decreases items.len(),
{
    if items.len() == 0 {
        seq![]
    } else {
        let rest = dispatch_arms(items.drop_last());
        match items.last() {
            ItemV::Signature(s) => rest.push(spec_dispatch_arm(s)),
            _ => rest,
        }
    }
}

pub open spec fn spec_endpoint_plan(intf: InterfaceV) -> EndpointPlanV {
    EndpointPlanV {
        constructor: match intf.constructor {
            Some(c) => Some(spec_constructor_call(c)),
            None => None,
        },
        arms: dispatch_arms(intf.items),
    }
}

fn type_texts(args: &Vec<Arg>) -> (r: Vec<String>)
    ensures
        string_views(r@) == arg_type_texts(arg_views(args@)),
{
    let mut r: Vec<String> = Vec::new();
    let mut i: usize = 0;
    while i < args.len()
        invariant
            0 <= i <= args@.len(),
            string_views(r@) == arg_type_texts(arg_views(args@)).take(i as int),
        decreases args@.len() - i,
    {
        let ghost before = r@;
        r.push(copy_string(&args[i].ty.text));
        proof {
            assert(string_views(r@) =~= string_views(before).push(args@[i as int].ty.text@));
            assert(arg_type_texts(arg_views(args@)).take(i + 1) =~= arg_type_texts(arg_views(args@)).take(
                i as int,
            ).push(args@[i as int].ty.text@));
        }
        i = i + 1;
    }
    assert(arg_type_texts(arg_views(args@)).take(i as int) =~= arg_type_texts(arg_views(args@)));
    r
}

fn pats(args: &Vec<Arg>) -> (r: Vec<String>)
    ensures
        string_views(r@) == arg_pats(arg_views(args@)),
{
    let mut r: Vec<String> = Vec::new();
    let mut i: usize = 0;
    while i < args.len()
        invariant
            0 <= i <= args@.len(),
            string_views(r@) == arg_pats(arg_views(args@)).take(i as int),
        decreases args@.len() - i,
    {
        let ghost before = r@;
        r.push(copy_string(&args[i].pat));
        proof {
            assert(string_views(r@) =~= string_views(before).push(args@[i as int].pat@));
            assert(arg_pats(arg_views(args@)).take(i + 1) =~= arg_pats(arg_views(args@)).take(
                i as int,
            ).push(args@[i as int].pat@));
        }
        i = i + 1;
    }
    assert(arg_pats(arg_views(args@)).take(i as int) =~= arg_pats(arg_views(args@)));
    r
}

fn dispatch_arm(s: &Signature) -> (r: DispatchArm)
    ensures
        r@ == spec_dispatch_arm(s@),
{
    DispatchArm {
        selector: s.hash,
        method: copy_string(&s.name),
        arg_types: type_texts(&s.arguments),
        refuses_value: !s.is_payable,
        return_count: s.return_types.len(),
    }
}

/// What the endpoint of an interface dispatches: the constructor, where the interface
/// has one, and one arm for each function, in order.
pub fn endpoint_plan(intf: &Interface) -> (r: EndpointPlan)
    ensures
        r@ == spec_endpoint_plan(intf@),
{
    let constructor = match intf.constructor() {
        Some(c) => Some(ConstructorCall { arg_types: type_texts(&c.arguments), refuses_value: !c.is_payable }),
        None => None,
    };
    let items = intf.items();
    let ghost iv = item_views(items@);
    let mut arms: Vec<DispatchArm> = Vec::new();
    let mut i: usize = 0;
    while i < items.len()
        invariant
            0 <= i <= items@.len(),
            iv == item_views(items@),
            arm_views(arms@) == dispatch_arms(iv.take(i as int)),
        decreases items@.len() - i,
    {
        proof {
            assert(iv.take(i + 1).drop_last() =~= iv.take(i as int));
        }
        match &items[i] {
            Item::Signature(s) => {
                let ghost before = arms@;
                arms.push(dispatch_arm(s));
                proof {
                    assert(arm_views(arms@) =~= arm_views(before).push(spec_dispatch_arm(s@)));
                }
            },
            _ => {},
        }
        i = i + 1;
    }
    proof {
        assert(iv.take(i as int) =~= iv);
    }
    EndpointPlan { constructor, arms }
}

// ---------------------------------------------------------------- the client

/// A method of the client.
pub enum ClientMethod {
    /// A function of the contract, called with a payload that starts with the four bytes
    /// of its selector, most significant first, followed by its arguments (by their
    /// patterns, in order), encoded; where the function returns something, the client
    /// decodes one value from a 32-byte reply.
    Call {
        name: String,
        sig: MethodSig,
        selector_bytes: [u8; 4],
        arg_pats: Vec<String>,
        decodes_reply: bool,
    },
    /// An event method, which a client refuses to call.
    Event { name: String, sig: MethodSig },
}

/// What the client of an interface offers: the constructor (its name and signature),
/// where the interface has one, and its methods, in order.
pub struct ClientPlan {
    pub constructor: Option<(String, MethodSig)>,
    pub methods: Vec<ClientMethod>,
}

pub enum ClientMethodV {
    Call {
        name: Seq<char>,
        sig: MethodSigV,
        selector_bytes: Seq<u8>,
        arg_pats: Seq<Seq<char>>,
        decodes_reply: bool,
    },
    Event { name: Seq<char>, sig: MethodSigV },
}

pub struct ClientPlanV {
    pub constructor: Option<(Seq<char>, MethodSigV)>,
    pub methods: Seq<ClientMethodV>,
}

impl View for ClientMethod {
    type V = ClientMethodV;

    open spec fn view(&self) -> ClientMethodV {
        match self {
            ClientMethod::Call { name, sig, selector_bytes, arg_pats, decodes_reply } => ClientMethodV::Call {
                name: name@,
                sig: sig@,
                selector_bytes: selector_bytes@,
                arg_pats: string_views(arg_pats@),
                decodes_reply: *decodes_reply,
            },
            ClientMethod::Event { name, sig } => ClientMethodV::Event { name: name@, sig: sig@ },
        }
    }
}

pub open spec fn client_method_views(v: Seq<ClientMethod>) -> Seq<ClientMethodV> {
    v.map_values(|m: ClientMethod| m@)
}

impl View for ClientPlan {
    type V = ClientPlanV;

    open spec fn view(&self) -> ClientPlanV {
        ClientPlanV {
            constructor: match self.constructor {
                Some(c) => Some((c.0@, c.1@)),
                None => None,
            },
            methods: client_method_views(self.methods@),
        }
    }
}

/// The four bytes of a selector, most significant first.
pub open spec fn be_bytes(h: u32) -> Seq<u8> {
    seq![
        (h / 0x1000000) as u8,
        ((h / 0x10000) % 0x100) as u8,
        ((h / 0x100) % 0x100) as u8,
        (h % 0x100) as u8,
    ]
}

pub open spec fn spec_client_call(s: SignatureV) -> ClientMethodV {
    ClientMethodV::Call {
        name: s.name,
        sig: s.method_sig,
        selector_bytes: be_bytes(s.hash),
        arg_pats: arg_pats(s.method_sig.inputs),
        decodes_reply: !(s.method_sig.output is Default),
    }
}

/// One method for each function and each event of the interface, in order.
pub open spec fn client_methods(items: Seq<ItemV>) -> Seq<ClientMethodV>
    decreases items.len(),
{
    if items.len() == 0 {
        seq![]
    } else {
        let rest = client_methods(items.drop_last());
        match items.last() {
            ItemV::Signature(s) => rest.push(spec_client_call(s)),
            ItemV::Event(e) => rest.push(ClientMethodV::Event { name: e.name, sig: e.method_sig }),
            ItemV::Other(_) => rest,
        }
    }
}

pub open spec fn spec_client_plan(intf: InterfaceV) -> ClientPlanV {
    ClientPlanV {
        constructor: match intf.constructor {
            Some(c) => Some((c.name, c.method_sig)),
            None => None,
        },
        methods: client_methods(intf.items),
    }
}

proof fn lemma_be_round_trip(h: u32)
    ensures
        be_u32(be_bytes(h)) == h,
{
    let b = be_bytes(h);
    assert(h == (h / 0x1000000) * 0x1000000 + ((h / 0x10000) % 0x100) * 0x10000 + ((h / 0x100) % 0x100)
        * 0x100 + h % 0x100) by (nonlinear_arith);
    assert(b[0] as int * 0x1000000 + b[1] as int * 0x10000 + b[2] as int * 0x100 + b[3] as int == h);
}

/// The four bytes of a selector, most significant first.
fn selector_bytes(selector: u32) -> (r: [u8; 4])
    ensures
        r@ == be_bytes(selector),
        be_u32(r@) == selector,
{
    let r = [
        (selector / 0x1000000) as u8,
        ((selector / 0x10000) % 0x100) as u8,
        ((selector / 0x100) % 0x100) as u8,
        (selector % 0x100) as u8,
    ];
    proof {
        assert(r@ =~= be_bytes(selector));
        lemma_be_round_trip(selector);
    }
    r
}

fn duplicate_return(t: &ReturnType) -> (r: ReturnType)
    ensures
        r@ == t@,
{
    match t {
        ReturnType::Default => ReturnType::Default,
        ReturnType::Type(ty) => ReturnType::Type(ty.duplicate()),
        ReturnType::Tuple(ts) => ReturnType::Tuple(duplicate_types(ts)),
    }
}

fn duplicate_sig(sig: &MethodSig) -> (r: MethodSig)
    ensures
        r@ == sig@,
{
    MethodSig {
        ident: copy_string(&sig.ident),
        receiver: copy_string(&sig.receiver),
        inputs: duplicate_args(&sig.inputs),
        output: duplicate_return(&sig.output),
    }
}

fn client_call(s: &Signature) -> (r: ClientMethod)
    ensures
        r@ == spec_client_call(s@),
{
    let decodes_reply = match &s.method_sig.output {
        ReturnType::Default => false,
        _ => true,
    };
    ClientMethod::Call {
        name: copy_string(&s.name),
        sig: duplicate_sig(&s.method_sig),
        selector_bytes: selector_bytes(s.hash),
        arg_pats: pats(&s.method_sig.inputs),
        decodes_reply,
    }
}

/// What the client of an interface offers: the constructor, where the interface has
/// one, and a method for each function and each event, in order.
pub fn client_plan(intf: &Interface) -> (r: ClientPlan)
    ensures
        r@ == spec_client_plan(intf@),
{
    let constructor = match intf.constructor() {
        Some(c) => Some((copy_string(&c.name), duplicate_sig(&c.method_sig))),
        None => None,
    };
    let items = intf.items();
    let ghost iv = item_views(items@);
    let mut methods: Vec<ClientMethod> = Vec::new();
    let mut i: usize = 0;
    while i < items.len()
        invariant
            0 <= i <= items@.len(),
            iv == item_views(items@),
            client_method_views(methods@) == client_methods(iv.take(i as int)),
        decreases items@.len() - i,
    {
        proof {
            assert(iv.take(i + 1).drop_last() =~= iv.take(i as int));
        }
        let ghost before = methods@;
        match &items[i] {
            Item::Signature(s) => {
                methods.push(client_call(s));
                proof {
                    assert(client_method_views(methods@) =~= client_method_views(before).push(
                        spec_client_call(s@),
                    ));
                }
            },
            Item::Event(e) => {
                methods.push(ClientMethod::Event { name: copy_string(&e.name), sig: duplicate_sig(&e.method_sig) });
                proof {
                    assert(client_method_views(methods@) =~= client_method_views(before).push(
                        ClientMethodV::Event { name: e@.name, sig: e@.method_sig },
                    ));
                }
            },
            Item::Other(_) => {},
        }
        i = i + 1;
    }
    proof {
        assert(iv.take(i as int) =~= iv);
    }
    ClientPlan { constructor, methods }
}

/// Whether a method of the client calls the method of an arm of the endpoint with a
/// payload whose first four bytes the endpoint reads, most significant first, as that
/// arm's selector.
pub open spec fn calls_arm(m: ClientMethodV, a: DispatchArmV) -> bool {
    m matches ClientMethodV::Call { name, selector_bytes, .. } && name == a.method && be_u32(
        selector_bytes,
    ) == a.selector
}

proof fn lemma_arms_have_calls(items: Seq<ItemV>, j: int)
    requires
        0 <= j < dispatch_arms(items).len(),
    ensures
        exists|k: int| 0 <= k < client_methods(items).len() && #[trigger] calls_arm(client_methods(items)[k], dispatch_arms(items)[j]),
    decreases items.len(),
{
    let p = items.drop_last();
    if j < dispatch_arms(p).len() {
        lemma_arms_have_calls(p, j);
        let k = choose|k: int| 0 <= k < client_methods(p).len() && #[trigger] calls_arm(client_methods(p)[k], dispatch_arms(p)[j]);
        assert(client_methods(items)[k] == client_methods(p)[k]);
        assert(dispatch_arms(items)[j] == dispatch_arms(p)[j]);
        assert(calls_arm(client_methods(items)[k], dispatch_arms(items)[j]));
    } else {
        match items.last() {
            ItemV::Signature(s) => {
                lemma_be_round_trip(s.hash);
                let k = client_methods(items).len() - 1;
                assert(calls_arm(client_methods(items)[k], dispatch_arms(items)[j]));
            },
            _ => {},
        }
    }
}

/// The client reaches the endpoint: for every arm of an interface's endpoint, its
/// client has a call of the same method whose payload starts with bytes that the
/// endpoint reads back as that arm's selector.
pub proof fn law_client_reaches_endpoint(intf: InterfaceV, j: int)
    requires
        0 <= j < spec_endpoint_plan(intf).arms.len(),
    ensures
        exists|k: int|
            0 <= k < spec_client_plan(intf).methods.len() && #[trigger] calls_arm(
                spec_client_plan(intf).methods[k],
                spec_endpoint_plan(intf).arms[j],
            ),
{
    lemma_arms_have_calls(intf.items, j);
    let k = choose|k: int|
        0 <= k < client_methods(intf.items).len() && #[trigger] calls_arm(
            client_methods(intf.items)[k],
            dispatch_arms(intf.items)[j],
        );
    assert(calls_arm(spec_client_plan(intf).methods[k], spec_endpoint_plan(intf).arms[j]));
}

// ---------------------------------------------------------------- events

/// What an event method logs: its first topic, the Keccak-256 hash of the event's
/// canonical text, then one topic for each indexed argument (by their patterns, in
/// order); the other arguments (by their patterns, in order) are encoded as the data.
pub struct EventLog {
    pub topic: [u8; 32],
    pub indexed_pats: Vec<String>,
    pub data_pats: Vec<String>,
}

/// What an event method logs.
pub fn event_log(event: &Event) -> (r: EventLog)
    ensures
        r.topic@ == spec_keccak256(encode_utf8(event.canonical@)),
        string_views(r.indexed_pats@) == arg_pats(event@.indexed),
        string_views(r.data_pats@) == arg_pats(event@.data),
{
    let topic = keccak256(event.canonical.as_str().as_bytes());
    EventLog { topic, indexed_pats: pats(&event.indexed), data_pats: pats(&event.data) }
}

// ---------------------------------------------------------------- at run time

/// What the endpoint does with a call.
pub enum Dispatch {
    /// The payload has fewer than four bytes: the call is refused ("Invalid abi invoke").
    TooShort,
    /// No arm answers the payload's selector: the call is refused ("Invalid method
    /// signature").
    UnknownMethod,
    /// The arm (by position) refuses a call that carries value.
    RefusesValue(usize),
    /// The arm's method is called once, with the arguments decoded from the rest of
    /// the payload, and the reply holds its encoded result (nothing where the arm
    /// returns nothing).
    Call(usize),
}

pub enum DispatchV {
    TooShort,
    UnknownMethod,
    RefusesValue(int),
    Call(int),
}

impl View for Dispatch {
    type V = DispatchV;

    open spec fn view(&self) -> DispatchV {
        match self {
            Dispatch::TooShort => DispatchV::TooShort,
            Dispatch::UnknownMethod => DispatchV::UnknownMethod,
            Dispatch::RefusesValue(k) => DispatchV::RefusesValue(*k as int),
            Dispatch::Call(k) => DispatchV::Call(*k as int),
        }
    }
}

/// The position of the first arm that answers a selector (the arms' count where none
/// does).
pub open spec fn first_arm(arms: Seq<DispatchArmV>, id: u32) -> int
    decreases arms.len(),
{
    if arms.len() == 0 {
        0
    } else if arms[0].selector == id {
        0
    } else {
        1 + first_arm(arms.drop_first(), id)
    }
}

/// The endpoint reads the selector from the payload's first four bytes, most
/// significant first, and takes the first arm that answers it.
pub open spec fn spec_dispatch(arms: Seq<DispatchArmV>, payload: Seq<u8>, carries_value: bool) -> DispatchV {
    if payload.len() < 4 {
        DispatchV::TooShort
    } else {
        let k = first_arm(arms, be_u32(payload));
        if k >= arms.len() {
            DispatchV::UnknownMethod
        } else if arms[k].refuses_value && carries_value {
            DispatchV::RefusesValue(k)
        } else {
            DispatchV::Call(k)
        }
    }
}

proof fn lemma_first_arm(arms: Seq<DispatchArmV>, id: u32)
    ensures
        0 <= first_arm(arms, id) <= arms.len(),
        first_arm(arms, id) < arms.len() ==> arms[first_arm(arms, id)].selector == id,
        forall|j: int| 0 <= j < first_arm(arms, id) ==> arms[j].selector != id,
    decreases arms.len(),
{
    if arms.len() > 0 && arms[0].selector != id {
        lemma_first_arm(arms.drop_first(), id);
        assert forall|j: int| 0 <= j < first_arm(arms, id) implies arms[j].selector != id by {
            if j > 0 {
                assert(arms[j] == arms.drop_first()[j - 1]);
            }
        }
    }
}

/// What the endpoint does with a call that carries the payload (and value, or not).
pub fn dispatch(plan: &EndpointPlan, payload: &[u8], carries_value: bool) -> (r: Dispatch)
    ensures
        r@ == spec_dispatch(plan@.arms, payload@, carries_value),
{
    if payload.len() < 4 {
        return Dispatch::TooShort;
    }
    let id: u32 = payload[0] as u32 * 0x1000000 + payload[1] as u32 * 0x10000 + payload[2] as u32 * 0x100
        + payload[3] as u32;
    let ghost arms = plan@.arms;
    proof {
        assert(id == be_u32(payload@));
        lemma_first_arm(arms, id);
    }
    let mut k: usize = 0;
    while k < plan.arms.len()
        invariant
            0 <= k <= plan.arms@.len(),
            arms == plan@.arms,
            arms.len() == plan.arms@.len(),
            payload@.len() >= 4,
            id == be_u32(payload@),
            forall|j: int| 0 <= j < k ==> arms[j].selector != id,
        decreases plan.arms@.len() - k,
    {
        proof {
            assert(arms[k as int] == plan.arms@[k as int]@);
        }
        if plan.arms[k].selector == id {
            proof {
                lemma_first_arm(arms, id);
                if first_arm(arms, id) < k {
                    assert(arms[first_arm(arms, id)].selector == id);
                }
                if first_arm(arms, id) > k {
                    assert(arms[k as int].selector != id);
                }
            }
            return if plan.arms[k].refuses_value && carries_value {
                Dispatch::RefusesValue(k)
            } else {
                Dispatch::Call(k)
            };
        }
        k = k + 1;
    }
    proof {
        lemma_first_arm(arms, id);
        if first_arm(arms, id) < arms.len() {
            assert(arms[first_arm(arms, id)].selector == id);
        }
    }
    Dispatch::UnknownMethod
}

/// What the endpoint does when it is deployed.
pub enum ConstructorDispatch {
    /// The interface has no constructor: nothing is called.
    Nothing,
    /// The constructor refuses a deployment that carries value.
    RefusesValue,
    /// The constructor is called once, with the arguments decoded from the payload.
    Call,
}

pub open spec fn spec_dispatch_ctor(c: Option<ConstructorCallV>, carries_value: bool) -> ConstructorDispatch {
    match c {
        None => ConstructorDispatch::Nothing,
        Some(c) => if c.refuses_value && carries_value {
            ConstructorDispatch::RefusesValue
        } else {
            ConstructorDispatch::Call
        },
    }
}

/// What the endpoint does when it is deployed (with value, or not).
pub fn dispatch_ctor(plan: &EndpointPlan, carries_value: bool) -> (r: ConstructorDispatch)
    ensures
        r == spec_dispatch_ctor(plan@.constructor, carries_value),
{
    match &plan.constructor {
        None => ConstructorDispatch::Nothing,
        Some(c) => if c.refuses_value && carries_value {
            ConstructorDispatch::RefusesValue
        } else {
            ConstructorDispatch::Call
        },
    }
}

/// The gas a client call offers where none was set.
pub const DEFAULT_GAS: u64 = 200000;

/// The gas a client call offers: the gas set on the client, or `DEFAULT_GAS`.
pub fn call_gas(gas: Option<u64>) -> (r: u64)
    ensures
        r == match gas {
            Some(g) => g,
            None => DEFAULT_GAS,
        },
{
    match gas {
        Some(g) => g,
        None => DEFAULT_GAS,
    }
}

/// The payload of a client call: the selector's four bytes, then the encoded
/// arguments.
pub fn call_payload(selector_bytes: [u8; 4], encoded_args: &Vec<u8>) -> (r: Vec<u8>)
    ensures
        r@ == selector_bytes@ + encoded_args@,
{
    let mut r: Vec<u8> = Vec::new();
    let mut i: usize = 0;
    while i < 4
        invariant
            0 <= i <= 4,
            r@ == selector_bytes@.take(i as int),
        decreases 4 - i,
    {
        r.push(selector_bytes[i]);
        assert(selector_bytes@.take(i + 1) =~= selector_bytes@.take(i as int).push(selector_bytes@[i as int]));
        i = i + 1;
    }
    assert(selector_bytes@.take(4) =~= selector_bytes@);
    let mut j: usize = 0;
    while j < encoded_args.len()
        invariant
            0 <= j <= encoded_args@.len(),
            r@ == selector_bytes@ + encoded_args@.take(j as int),
        decreases encoded_args@.len() - j,
    {
        r.push(encoded_args[j]);
        assert(encoded_args@.take(j + 1) =~= encoded_args@.take(j as int).push(encoded_args@[j as int]));
        assert(r@ =~= selector_bytes@ + encoded_args@.take(j + 1));
        j = j + 1;
    }
    assert(encoded_args@.take(j as int) =~= encoded_args@);
    r
}

/// The endpoint answers what its client sends: a payload that starts with an arm's
/// selector bytes (most significant first), whatever follows, reaches an arm that
/// answers that selector, the first such (the arm itself where selectors differ).
pub proof fn law_payload_reaches_arm(intf: InterfaceV, j: int, rest: Seq<u8>, carries_value: bool)
    requires
        0 <= j < spec_endpoint_plan(intf).arms.len(),
    ensures
        ({
            let arms = spec_endpoint_plan(intf).arms;
            match spec_dispatch(arms, be_bytes(arms[j].selector) + rest, carries_value) {
                DispatchV::Call(k) | DispatchV::RefusesValue(k) => 0 <= k <= j && arms[k].selector
                    == arms[j].selector,
                _ => false,
            }
        }),
{
    let arms = spec_endpoint_plan(intf).arms;
    let p = be_bytes(arms[j].selector) + rest;
    lemma_be_round_trip(arms[j].selector);
    assert(be_u32(p) == be_u32(be_bytes(arms[j].selector)));
    lemma_first_arm(arms, arms[j].selector);
}

} // verus!
