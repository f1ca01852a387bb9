//! The JSON ABI description of an interface: its entries, built from the interface.
use vstd::prelude::*;
use crate::abi_items::{
    Arg, ArgV, Event, EventV, Interface, InterfaceV, Item, ItemV, Signature, SignatureV, Type,
    TypeV, arg_views, item_views, type_views,
};
use crate::abi_items::{args_where_indexed, is_indexed, spec_event, MethodSigV};
use crate::path::{str_chars, string_from_chars};

verus! {

/// A function of the ABI.
pub struct FunctionEntry {
    pub name: String,
    /// Serialized as `inputs`.
    pub arguments: Vec<Argument>,
    pub outputs: Vec<Argument>,
    pub constant: bool,
}

/// A named, typed argument.
pub struct Argument {
    pub name: String,
    /// Serialized as `type`.
    pub type_: String,
}

/// The constructor of the ABI.
pub struct ConstructorEntry {
    /// Serialized as `inputs`.
    pub arguments: Vec<Argument>,
}

/// An entry of the ABI, tagged by `type`.
pub enum AbiEntry {
    Event(EventEntry),
    Function(FunctionEntry),
    Constructor(ConstructorEntry),
}

/// An input of an event.
pub struct EventInput {
    pub name: String,
    /// Serialized as `type`.
    pub type_: String,
    pub indexed: bool,
}

/// An event of the ABI.
pub struct EventEntry {
    pub name: String,
    pub inputs: Vec<EventInput>,
}

/// The ABI of an interface.
pub struct Abi(pub Vec<AbiEntry>);

// ---------------------------------------------------------------- models

pub struct ArgumentV {
    pub name: Seq<char>,
    pub type_: Seq<char>,
}

pub struct FunctionEntryV {
    pub name: Seq<char>,
    pub arguments: Seq<ArgumentV>,
    pub outputs: Seq<ArgumentV>,
    pub constant: bool,
}

pub struct EventInputV {
    pub name: Seq<char>,
    pub type_: Seq<char>,
    pub indexed: bool,
}

pub struct EventEntryV {
    pub name: Seq<char>,
    pub inputs: Seq<EventInputV>,
}

pub enum AbiEntryV {
    Event(EventEntryV),
    Function(FunctionEntryV),
    Constructor(Seq<ArgumentV>),
}

impl View for Argument {
    type V = ArgumentV;

    open spec fn view(&self) -> ArgumentV {
        ArgumentV { name: self.name@, type_: self.type_@ }
    }
}

pub open spec fn argument_views(v: Seq<Argument>) -> Seq<ArgumentV> {
    v.map_values(|a: Argument| a@)
}

impl View for FunctionEntry {
    type V = FunctionEntryV;

    open spec fn view(&self) -> FunctionEntryV {
        FunctionEntryV {
            name: self.name@,
            arguments: argument_views(self.arguments@),
            outputs: argument_views(self.outputs@),
            constant: self.constant,
        }
    }
}

impl View for EventInput {
    type V = EventInputV;

    open spec fn view(&self) -> EventInputV {
        EventInputV { name: self.name@, type_: self.type_@, indexed: self.indexed }
    }
}

pub open spec fn event_input_views(v: Seq<EventInput>) -> Seq<EventInputV> {
    v.map_values(|a: EventInput| a@)
}

impl View for EventEntry {
    type V = EventEntryV;

    open spec fn view(&self) -> EventEntryV {
        EventEntryV { name: self.name@, inputs: event_input_views(self.inputs@) }
    }
}

impl View for ConstructorEntry {
    type V = Seq<ArgumentV>;

    open spec fn view(&self) -> Seq<ArgumentV> {
        argument_views(self.arguments@)
    }
}

impl View for AbiEntry {
    type V = AbiEntryV;

    open spec fn view(&self) -> AbiEntryV {
        match self {
            AbiEntry::Event(e) => AbiEntryV::Event(e@),
            AbiEntry::Function(f) => AbiEntryV::Function(f@),
            AbiEntry::Constructor(c) => AbiEntryV::Constructor(c@),
        }
    }
}

pub open spec fn entry_views(v: Seq<AbiEntry>) -> Seq<AbiEntryV> {
    v.map_values(|e: AbiEntry| e@)
}

impl View for Abi {
    type V = Seq<AbiEntryV>;

    open spec fn view(&self) -> Seq<AbiEntryV> {
        entry_views(self.0@)
    }
}

// ---------------------------------------------------------------- the rules

/// The decimal digits of `n`.
pub open spec fn decimal(n: nat) -> Seq<char>
    decreases n,
{
    if n < 10 {
        seq![((48 + n) as u8) as char]
    } else {
        decimal(n / 10) + seq![((48 + n % 10) as u8) as char]
    }
}

/// The name of the `idx`-th output: `returnValue<idx>`.
pub open spec fn output_name(idx: nat) -> Seq<char> {
    seq!['r', 'e', 't', 'u', 'r', 'n', 'V', 'a', 'l', 'u', 'e'] + decimal(idx)
}

pub open spec fn spec_argument(a: ArgV) -> ArgumentV {
    ArgumentV { name: a.pat, type_: a.ty.abi_name }
}

pub open spec fn spec_arguments(args: Seq<ArgV>) -> Seq<ArgumentV> {
    args.map_values(|a: ArgV| spec_argument(a))
}

pub open spec fn spec_outputs(tys: Seq<TypeV>) -> Seq<ArgumentV> {
    Seq::new(tys.len(), |i: int| ArgumentV { name: output_name(i as nat), type_: tys[i].abi_name })
}

pub open spec fn spec_function_entry(s: SignatureV) -> FunctionEntryV {
    FunctionEntryV {
        name: s.name,
        arguments: spec_arguments(s.arguments),
        outputs: spec_outputs(s.return_types),
        constant: s.is_constant,
    }
}

pub open spec fn spec_event_inputs(args: Seq<ArgV>, indexed: bool) -> Seq<EventInputV> {
    args.map_values(|a: ArgV| EventInputV { name: a.pat, type_: a.ty.abi_name, indexed })
}

/// An event's entry: its indexed inputs, then the others.
pub open spec fn spec_event_entry(e: EventV) -> EventEntryV {
    EventEntryV {
        name: e.name,
        inputs: spec_event_inputs(e.indexed, true) + spec_event_inputs(e.data, false),
    }
}

/// The entries of the items that are functions or events, in order.
pub open spec fn spec_item_entries(items: Seq<ItemV>) -> Seq<AbiEntryV>
    decreases items.len(),
{
    if items.len() == 0 {
        seq![]
    } else {
        let rest = spec_item_entries(items.drop_last());
        match items.last() {
            ItemV::Event(e) => rest.push(AbiEntryV::Event(spec_event_entry(e))),
            ItemV::Signature(s) => rest.push(AbiEntryV::Function(spec_function_entry(s))),
            ItemV::Other(_) => rest,
        }
    }
}

/// The ABI of an interface: an entry per function and event, then the constructor.
pub open spec fn spec_abi(intf: InterfaceV) -> Seq<AbiEntryV> {
    let entries = spec_item_entries(intf.items);
    match intf.constructor {
        Some(c) => entries.push(AbiEntryV::Constructor(spec_arguments(c.arguments))),
        None => entries,
    }
}

// ---------------------------------------------------------------- executable

pub(crate) fn decimal_chars(n: u64) -> (r: Vec<char>)
    ensures
        r@ == decimal(n as nat),
    decreases n,
{
    if n < 10 {
        let mut v: Vec<char> = Vec::new();
        v.push((48u8 + n as u8) as char);
        v
    } else {
        let mut v = decimal_chars(n / 10);
        v.push((48u8 + (n % 10) as u8) as char);
        v
    }
}

fn output_name_exec(idx: usize) -> (r: String)
    ensures
        r@ == output_name(idx as nat),
{
    let mut v: Vec<char> = Vec::new();
    v.push('r');
    v.push('e');
    v.push('t');
    v.push('u');
    v.push('r');
    v.push('n');
    v.push('V');
    v.push('a');
    v.push('l');
    v.push('u');
    v.push('e');
    let d = decimal_chars(idx as u64);
    let mut k: usize = 0;
    let ghost base = v@;
    while k < d.len()
        invariant
            0 <= k <= d@.len(),
            v@ == base + d@.take(k as int),
        decreases d@.len() - k,
    {
        v.push(d[k]);
        k = k + 1;
        assert(v@ =~= base + d@.take(k as int));
    }
    assert(d@.take(k as int) =~= d@);
    assert(v@ =~= output_name(idx as nat));
    string_from_chars(v.as_slice())
}

fn argument_of(a: &Arg) -> (r: Argument)
    ensures
        r@ == spec_argument(a@),
{
    Argument { name: a.pat.clone(), type_: a.ty.abi_name.clone() }
}

fn arguments_of(args: &Vec<Arg>) -> (r: Vec<Argument>)
    ensures
        argument_views(r@) == spec_arguments(arg_views(args@)),
{
    let mut r: Vec<Argument> = Vec::new();
    let mut i: usize = 0;
    while i < args.len()
        invariant
            0 <= i <= args@.len(),
            argument_views(r@) == spec_arguments(arg_views(args@)).take(i as int),
        decreases args@.len() - i,
    {
        let ghost before = r@;
        let a = argument_of(&args[i]);
        let ghost av = a@;
        r.push(a);
        assert(argument_views(r@) =~= argument_views(before).push(av));
        assert(argument_views(r@) =~= spec_arguments(arg_views(args@)).take(i + 1));
        i = i + 1;
    }
    assert(spec_arguments(arg_views(args@)).take(i as int) =~= spec_arguments(arg_views(args@)));
    r
}

fn event_inputs_of(args: &Vec<Arg>, indexed: bool, out: &mut Vec<EventInput>)
    ensures
        event_input_views(final(out)@) == event_input_views(old(out)@) + spec_event_inputs(
            arg_views(args@),
            indexed,
        ),
{
    let ghost start = event_input_views(out@);
    let mut i: usize = 0;
    while i < args.len()
        invariant
            0 <= i <= args@.len(),
            event_input_views(out@) == start + spec_event_inputs(arg_views(args@), indexed).take(
                i as int,
            ),
        decreases args@.len() - i,
    {
        let ghost before = out@;
        let e = EventInput { name: args[i].pat.clone(), type_: args[i].ty.abi_name.clone(), indexed };
        let ghost ev = e@;
        out.push(e);
        assert(event_input_views(out@) =~= event_input_views(before).push(ev));
        assert(event_input_views(out@) =~= start + spec_event_inputs(arg_views(args@), indexed).take(
            i + 1,
        ));
        i = i + 1;
    }
    assert(spec_event_inputs(arg_views(args@), indexed).take(i as int) =~= spec_event_inputs(
        arg_views(args@),
        indexed,
    ));
}

impl EventEntry {
    /// The entry of an event: its indexed inputs, then the others.
    pub fn from(item: &Event) -> (r: EventEntry)
        ensures
            r@ == spec_event_entry(item@),
    {
        let mut inputs: Vec<EventInput> = Vec::new();
        event_inputs_of(&item.indexed, true, &mut inputs);
        event_inputs_of(&item.data, false, &mut inputs);
        assert(event_input_views(inputs@) =~= spec_event_inputs(arg_views(item.indexed@), true)
            + spec_event_inputs(arg_views(item.data@), false));
        EventEntry { name: item.name.clone(), inputs }
    }
}

impl FunctionEntry {
    /// The entry of a function: its arguments, and outputs named `returnValue<i>`.
    pub fn from(item: &Signature) -> (r: FunctionEntry)
        ensures
            r@ == spec_function_entry(item@),
    {
        let arguments = arguments_of(&item.arguments);
        let mut outputs: Vec<Argument> = Vec::new();
        let mut i: usize = 0;
        let ghost tys = type_views(item.return_types@);
        while i < item.return_types.len()
            invariant
                0 <= i <= item.return_types@.len(),
                tys == type_views(item.return_types@),
                argument_views(outputs@) == spec_outputs(tys).take(i as int),
            decreases item.return_types@.len() - i,
        {
            let ghost before = outputs@;
            let a = Argument {
                name: output_name_exec(i),
                type_: item.return_types[i].abi_name.clone(),
            };
            let ghost av = a@;
            outputs.push(a);
            assert(argument_views(outputs@) =~= argument_views(before).push(av));
            assert(argument_views(outputs@) =~= spec_outputs(tys).take(i + 1));
            i = i + 1;
        }
        assert(spec_outputs(tys).take(i as int) =~= spec_outputs(tys));
        FunctionEntry { name: item.name.clone(), arguments, outputs, constant: item.is_constant }
    }
}

impl ConstructorEntry {
    /// The entry of the constructor: the arguments of its function entry.
    pub fn from(func: FunctionEntry) -> (r: ConstructorEntry)
        ensures
            r@ == func@.arguments,
    {
        ConstructorEntry { arguments: func.arguments }
    }
}

impl Abi {
    /// The ABI of an interface: an entry per function and event, then the constructor.
    pub fn from(intf: &Interface) -> (r: Abi)
        ensures
            r@ == spec_abi(intf@),
    {
        let mut result: Vec<AbiEntry> = Vec::new();
        let items = intf.items();
        let ghost iv = item_views(items@);
        let mut i: usize = 0;
        while i < items.len()
            invariant
                0 <= i <= items@.len(),
                iv == item_views(items@),
                entry_views(result@) == spec_item_entries(iv.take(i as int)),
            decreases items@.len() - i,
        {
            let ghost before = result@;
            assert(iv.take(i + 1).drop_last() =~= iv.take(i as int));
            assert(iv.take(i + 1).last() == items@[i as int]@);
            match &items[i] {
                Item::Event(event) => {
                    let e = AbiEntry::Event(EventEntry::from(event));
                    let ghost ev = e@;
                    result.push(e);
                    assert(entry_views(result@) =~= entry_views(before).push(ev));
                },
                Item::Signature(signature) => {
                    let e = AbiEntry::Function(FunctionEntry::from(signature));
                    let ghost ev = e@;
                    result.push(e);
                    assert(entry_views(result@) =~= entry_views(before).push(ev));
                },
                _ => {},
            }
            i = i + 1;
        }
        assert(iv.take(i as int) =~= iv);
        match intf.constructor() {
            Some(constructor) => {
                let ghost before = result@;
                let e = AbiEntry::Constructor(ConstructorEntry::from(FunctionEntry::from(constructor)));
                let ghost ev = e@;
                result.push(e);
                assert(entry_views(result@) =~= entry_views(before).push(ev));
            },
            None => {},
        }
        Abi(result)
    }
}

// ---------------------------------------------------------------- laws

/// Each argument that the filter keeps is an argument of the method with that
/// indexing, and the two filters together keep every argument.
proof fn lemma_args_where_indexed(args: Seq<ArgV>, indexed: bool)
    ensures
        forall|i: int|
            0 <= i < args_where_indexed(args, indexed).len() ==> exists|j: int|
                0 <= j < args.len() && #[trigger] args_where_indexed(args, indexed)[i] == args[j]
                    && is_indexed(args[j]) == indexed,
        args_where_indexed(args, true).len() + args_where_indexed(args, false).len() == args.len(),
    decreases args.len(),
{
    if args.len() > 0 {
        let front = args.drop_last();
        lemma_args_where_indexed(front, indexed);
        lemma_args_where_indexed(front, !indexed);
        let r = args_where_indexed(args, indexed);
        let rf = args_where_indexed(front, indexed);
        assert forall|i: int| 0 <= i < r.len() implies exists|j: int|
            0 <= j < args.len() && #[trigger] r[i] == args[j] && is_indexed(args[j]) == indexed by {
            if i < rf.len() {
                let j = choose|j: int| 0 <= j < front.len() && rf[i] == front[j] && is_indexed(front[j]) == indexed;
                assert(r[i] == args[j]);
            } else {
                assert(r[i] == args[args.len() - 1]);
            }
        }
    }
}

/// An event's entry lists exactly the method's arguments: as many inputs as the method
/// has arguments, each the name of one of them, typed by its ABI type name (as a
/// function's arguments are) and marked indexed exactly where that argument is.
pub proof fn law_event_inputs_describe_arguments(sig: MethodSigV)
    ensures
        ({
            let inputs = spec_event_entry(spec_event(sig)).inputs;
            &&& inputs.len() == sig.inputs.len()
            &&& forall|i: int|
                0 <= i < inputs.len() ==> exists|j: int|
                    0 <= j < sig.inputs.len() && (#[trigger] inputs[i]).name == sig.inputs[j].pat
                        && inputs[i].type_ == sig.inputs[j].ty.abi_name && inputs[i].indexed
                        == is_indexed(sig.inputs[j])
        }),
{
    let e = spec_event(sig);
    let inputs = spec_event_entry(e).inputs;
    lemma_args_where_indexed(sig.inputs, true);
    lemma_args_where_indexed(sig.inputs, false);
    let ni = e.indexed.len();
    assert forall|i: int| 0 <= i < inputs.len() implies exists|j: int|
        0 <= j < sig.inputs.len() && (#[trigger] inputs[i]).name == sig.inputs[j].pat
            && inputs[i].type_ == sig.inputs[j].ty.abi_name && inputs[i].indexed
            == is_indexed(sig.inputs[j]) by {
        if i < ni {
            assert(inputs[i] == spec_event_inputs(e.indexed, true)[i]);
            let a = args_where_indexed(sig.inputs, true)[i];
            let j = choose|j: int| 0 <= j < sig.inputs.len() && a == sig.inputs[j] && is_indexed(sig.inputs[j]) == true;
            assert(inputs[i].name == sig.inputs[j].pat);
        } else {
            assert(inputs[i] == spec_event_inputs(e.data, false)[i - ni]);
            let a = args_where_indexed(sig.inputs, false)[i - ni];
            let j = choose|j: int| 0 <= j < sig.inputs.len() && a == sig.inputs[j] && is_indexed(sig.inputs[j]) == false;
            assert(inputs[i].name == sig.inputs[j].pat);
        }
    }
}

/// An event's inputs carry the same names and types, in order, as the function
/// arguments that its indexed arguments followed by its other arguments would have.
pub proof fn law_event_inputs_typed_as_arguments(e: EventV)
    ensures
        ({
            let inputs = spec_event_entry(e).inputs;
            let args = spec_arguments(e.indexed + e.data);
            &&& inputs.len() == args.len()
            &&& forall|i: int|
                0 <= i < inputs.len() ==> (#[trigger] inputs[i]).name == args[i].name
                    && inputs[i].type_ == args[i].type_ && inputs[i].indexed == (i < e.indexed.len())
        }),
{
    let inputs = spec_event_entry(e).inputs;
    let all = e.indexed + e.data;
    assert forall|i: int| 0 <= i < inputs.len() implies (#[trigger] inputs[i]).name == spec_arguments(all)[i].name
        && inputs[i].type_ == spec_arguments(all)[i].type_ && inputs[i].indexed == (i < e.indexed.len()) by {
        if i < e.indexed.len() {
            assert(inputs[i] == spec_event_inputs(e.indexed, true)[i]);
            assert(all[i] == e.indexed[i]);
        } else {
            assert(inputs[i] == spec_event_inputs(e.data, false)[i - e.indexed.len()]);
            assert(all[i] == e.data[i - e.indexed.len()]);
        }
    }
}

} // verus!
