//! The items of a contract definition: the one struct that derives `Contract`, the
//! other items, and the contract's `impl` blocks with their public methods.
use vstd::prelude::*;
use crate::idl::{str_eq, string_views};

verus! {

/// An item of a contract definition, as the contract macro reads it.
pub enum ItemShape {
    /// A struct: its name and the names that its `derive` attributes list.
    Struct { ident: String, derives: Vec<String> },
    /// An `impl` block: the last segment of its self type where that is a path, and
    /// the names of its public methods, in order.
    Impl { self_ty: Option<String>, pub_methods: Vec<String> },
    /// Any other item.
    Other,
}

pub enum ItemShapeV {
    Struct { ident: Seq<char>, derives: Seq<Seq<char>> },
    Impl { self_ty: Option<Seq<char>>, pub_methods: Seq<Seq<char>> },
    Other,
}

impl View for ItemShape {
    type V = ItemShapeV;

    open spec fn view(&self) -> ItemShapeV {
        match self {
            ItemShape::Struct { ident, derives } => ItemShapeV::Struct {
                ident: ident@,
                derives: string_views(derives@),
            },
            ItemShape::Impl { self_ty, pub_methods } => ItemShapeV::Impl {
                self_ty: match self_ty {
                    Some(t) => Some(t@),
                    None => None,
                },
                pub_methods: string_views(pub_methods@),
            },
            ItemShape::Other => ItemShapeV::Other,
        }
    }
}

pub open spec fn item_shape_views(v: Seq<ItemShape>) -> Seq<ItemShapeV> {
    v.map_values(|i: ItemShape| i@)
}

/// What is wrong with a contract definition.
#[derive(PartialEq, Eq, Structural, Debug)]
pub enum ContractDefError {
    /// No struct derives `Contract`.
    NoContract,
    /// A second struct derives `Contract`, at this position among the items.
    SecondContract(usize),
}

/// A contract definition split up: the position of the contract struct, the
/// positions of the other items, in order, and for each `impl` block of the contract,
/// in order, its position and the names of its public methods.
pub struct ContractSplit {
    pub contract: usize,
    pub others: Vec<usize>,
    pub impls: Vec<(usize, Vec<String>)>,
}

pub struct ContractSplitV {
    pub contract: int,
    pub others: Seq<int>,
    pub impls: Seq<(int, Seq<Seq<char>>)>,
}

pub open spec fn impl_views(v: Seq<(usize, Vec<String>)>) -> Seq<(int, Seq<Seq<char>>)> {
    v.map_values(|p: (usize, Vec<String>)| (p.0 as int, string_views(p.1@)))
}

impl View for ContractSplit {
    type V = ContractSplitV;

    open spec fn view(&self) -> ContractSplitV {
        ContractSplitV {
            contract: self.contract as int,
            others: self.others@.map_values(|i: usize| i as int),
            impls: impl_views(self.impls@),
        }
    }
}

/// A struct that derives `Contract`.
pub open spec fn is_contract(i: ItemShapeV) -> bool {
    i matches ItemShapeV::Struct { derives, .. } && derives.contains("Contract"@)
}

/// The positions of the items that are (or are not) contracts, in order.
pub open spec fn positions(items: Seq<ItemShapeV>, contracts: bool) -> Seq<int>
    decreases items.len(),
{
    if items.len() == 0 {
        seq![]
    } else if is_contract(items.last()) == contracts {
        positions(items.drop_last(), contracts).push(items.len() - 1)
    } else {
        positions(items.drop_last(), contracts)
    }
}

/// The `impl` blocks of the named type, in order: each position, with its public
/// methods.
pub open spec fn impls_of(items: Seq<ItemShapeV>, name: Seq<char>) -> Seq<(int, Seq<Seq<char>>)>
    decreases items.len(),
{
    if items.len() == 0 {
        seq![]
    } else {
        let rest = impls_of(items.drop_last(), name);
        match items.last() {
            ItemShapeV::Impl { self_ty, pub_methods } => if self_ty == Some(name) {
                rest.push((items.len() - 1, pub_methods))
            } else {
                rest
            },
            _ => rest,
        }
    }
}

proof fn lemma_positions(items: Seq<ItemShapeV>, contracts: bool, j: int)
    requires
        0 <= j < positions(items, contracts).len(),
    ensures
        0 <= positions(items, contracts)[j] < items.len(),
        is_contract(items[positions(items, contracts)[j]]) == contracts,
    decreases items.len(),
{
    let p = items.drop_last();
    if j < positions(p, contracts).len() {
        lemma_positions(p, contracts, j);
        assert(items[positions(p, contracts)[j]] == p[positions(p, contracts)[j]]);
    }
}

pub open spec fn spec_split_contract(items: Seq<ItemShapeV>) -> Result<ContractSplitV, ContractDefError> {
    let c = positions(items, true);
    if c.len() == 0 {
        Err(ContractDefError::NoContract)
    } else if c.len() > 1 {
        Err(ContractDefError::SecondContract(c[1] as usize))
    } else {
        Ok(
            ContractSplitV {
                contract: c[0],
                others: positions(items, false),
                impls: impls_of(items, items[c[0]]->Struct_ident),
            },
        )
    }
}

pub open spec fn split_view(r: Result<ContractSplit, ContractDefError>) -> Result<ContractSplitV, ContractDefError> {
    match r {
        Ok(s) => Ok(s@),
        Err(e) => Err(e),
    }
}

fn derives_contract(derives: &Vec<String>) -> (r: bool)
    ensures
        r == string_views(derives@).contains("Contract"@),
{
    let ghost v = string_views(derives@);
    let mut i: usize = 0;
    while i < derives.len()
        invariant
            0 <= i <= derives@.len(),
            v == string_views(derives@),
            forall|j: int| 0 <= j < i ==> v[j] != "Contract"@,
        decreases derives@.len() - i,
    {
        if str_eq(derives[i].as_str(), "Contract") {
            assert(v[i as int] == "Contract"@);
            return true;
        }
        i = i + 1;
    }
    false
}

fn is_contract_exec(item: &ItemShape) -> (r: bool)
    ensures
        r == is_contract(item@),
{
    match item {
        ItemShape::Struct { derives, .. } => derives_contract(derives),
        _ => false,
    }
}

fn copy_strings(v: &Vec<String>) -> (r: Vec<String>)
    ensures
        string_views(r@) == string_views(v@),
{
    let mut r: Vec<String> = Vec::new();
    let mut i: usize = 0;
    while i < v.len()
        invariant
            0 <= i <= v@.len(),
            string_views(r@) == string_views(v@).take(i as int),
        decreases v@.len() - i,
    {
        let ghost before = r@;
        r.push(v[i].clone());
        assert(string_views(r@) =~= string_views(before).push(v@[i as int]@));
        assert(string_views(v@).take(i + 1) =~= string_views(v@).take(i as int).push(v@[i as int]@));
        i = i + 1;
    }
    assert(string_views(v@).take(i as int) =~= string_views(v@));
    r
}

/// Splits a contract definition into its one contract struct, the other items, and
/// the contract's `impl` blocks with their public methods; fails where no struct, or
/// more than one, derives `Contract`.
pub fn split_contract_items(items: &Vec<ItemShape>) -> (r: Result<ContractSplit, ContractDefError>)
    ensures
        split_view(r) == spec_split_contract(item_shape_views(items@)),
{
    let ghost iv = item_shape_views(items@);
    let mut contracts: Vec<usize> = Vec::new();
    let mut others: Vec<usize> = Vec::new();
    let mut i: usize = 0;
    while i < items.len()
        invariant
            0 <= i <= items@.len(),
            iv == item_shape_views(items@),
            contracts@.map_values(|k: usize| k as int) == positions(iv.take(i as int), true),
            others@.map_values(|k: usize| k as int) == positions(iv.take(i as int), false),
        decreases items@.len() - i,
    {
        proof {
            assert(iv.take(i + 1).drop_last() =~= iv.take(i as int));
            assert(iv.take(i + 1).last() == items@[i as int]@);
        }
        if is_contract_exec(&items[i]) {
            let ghost before = contracts@;
            contracts.push(i);
            assert(contracts@.map_values(|k: usize| k as int) =~= before.map_values(|k: usize| k as int).push(
                i as int,
            ));
        } else {
            let ghost before = others@;
            others.push(i);
            assert(others@.map_values(|k: usize| k as int) =~= before.map_values(|k: usize| k as int).push(
                i as int,
            ));
        }
        i = i + 1;
    }
    assert(iv.take(i as int) =~= iv);
    if contracts.len() == 0 {
        return Err(ContractDefError::NoContract);
    }
    if contracts.len() > 1 {
        assert(contracts@.map_values(|k: usize| k as int)[1] == contracts@[1] as int);
        return Err(ContractDefError::SecondContract(contracts[1]));
    }
    let c = contracts[0];
    assert(contracts@.map_values(|k: usize| k as int)[0] == c as int);
    proof {
        lemma_positions(iv, true, 0);
    }
    let name = match &items[c] {
        ItemShape::Struct { ident, .. } => ident,
        _ => {
            // A contract is a struct, so this arm is never taken.
            proof {
                assert(is_contract(iv[c as int]));
            }
            return Err(ContractDefError::NoContract);
        },
    };
    let mut impls: Vec<(usize, Vec<String>)> = Vec::new();
    let mut k: usize = 0;
    while k < items.len()
        invariant
            0 <= k <= items@.len(),
            iv == item_shape_views(items@),
            impl_views(impls@) == impls_of(iv.take(k as int), name@),
        decreases items@.len() - k,
    {
        proof {
            assert(iv.take(k + 1).drop_last() =~= iv.take(k as int));
            assert(iv.take(k + 1).last() == items@[k as int]@);
        }
        match &items[k] {
            ItemShape::Impl { self_ty: Some(t), pub_methods } => {
                if str_eq(t.as_str(), name.as_str()) {
                    let ghost before = impls@;
                    let ms = copy_strings(pub_methods);
                    impls.push((k, ms));
                    assert(impl_views(impls@) =~= impl_views(before).push((k as int, string_views(pub_methods@))));
                }
            },
            _ => {},
        }
        k = k + 1;
    }
    assert(iv.take(k as int) =~= iv);
    Ok(ContractSplit { contract: c, others, impls })
}

} // verus!
