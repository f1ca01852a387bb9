//! The interfaces between a service and the blockchain that runs it.
use vstd::prelude::*;

verus! {

/// A handle to a service or account.
pub trait Address: Copy + Eq + Default {
    /// The file-system path under which this address is found.
    fn path_repr(&self) -> String;
}

/// Account metadata (e.g., balance, expiry).
pub trait AccountMeta {
    /// The balance, as an implementation states it (none by default).
    closed spec fn spec_balance(&self) -> u64 {
        0
    }

    fn balance(&self) -> (b: u64)
        ensures
            b == self.spec_balance(),
    ;
}

pub trait Event {
    type Address: Address;

    /// The address of the contract that emitted this event.
    fn emitter(&self) -> &Self::Address;

    fn topics(&self) -> Vec<&[u8]>;

    fn data(&self) -> &[u8];
}

pub trait Receipt {
    type Address: Address;

    type Event: Event<Address = Self::Address>;

    /// The outcome, as an implementation states it (success by default).
    closed spec fn spec_outcome(&self) -> TransactionOutcome {
        TransactionOutcome::Success
    }

    fn caller(&self) -> &Self::Address;

    fn callee(&self) -> &Self::Address;

    /// Returns the total gas used during the execution of the transaction.
    fn gas_used(&self) -> u64;

    /// Returns the events emitted during the transaction.
    fn events(&self) -> Vec<&Self::Event>;

    /// Returns the outcome of this transaction.
    fn outcome(&self) -> (o: TransactionOutcome)
        ensures
            o == self.spec_outcome(),
    ;

    /// Returns the output of the transaction.
    fn output(&self) -> &[u8];

    /// Returns whether the transaction that produced this receipt was reverted.
    fn reverted(&self) -> (r: bool)
        ensures
            r == (self.spec_outcome() != TransactionOutcome::Success),
    {
        match self.outcome() {
            TransactionOutcome::Success => false,
            _ => true,
        }
    }
}

/// Interface for a blockchain-flavored key-value store.
pub trait KVStore {
    /// The contents of the store, as an implementation states them (empty by default).
    closed spec fn kv(&self) -> Map<Seq<u8>, Seq<u8>> {
        Map::empty()
    }

    /// Returns whether the key is present in account storage.
    fn contains(&self, key: &[u8]) -> (r: bool)
        ensures
            r == self.kv().contains_key(key@),
    ;

    /// Returns the data stored in the account under the given `key`.
    fn get(&self, key: &[u8]) -> (r: Option<Vec<u8>>)
        ensures
            r is Some <==> self.kv().contains_key(key@),
            r matches Some(v) ==> v@ == self.kv()[key@],
    ;
}

pub trait KVStoreMut: KVStore {
    /// Sets the data stored in the account under the given `key`.
    /// Overwrites any existing data.
    fn set(&mut self, key: &[u8], value: &[u8])
        ensures
            final(self).kv() == old(self).kv().insert(key@, value@),
    ;

    /// Removes the data stored in the account under the given `key`.
    fn remove(&mut self, key: &[u8])
        ensures
            final(self).kv() == old(self).kv().remove(key@),
    ;
}

/// Something that a transaction hands back to its caller or publishes.
pub enum TxOutput {
    /// Data returned to the calling transaction.
    Return(Seq<u8>),
    /// Error data returned to the calling context.
    Error(Seq<u8>),
    /// A broadcast message with its topics and data.
    Event(Seq<Seq<u8>>, Seq<u8>),
}

/// The data and functionality available to a smart contract execution.
pub trait PendingTransaction: Sized {
    type Address: Address;

    type AccountMeta: AccountMeta;

    type Receipt: Receipt<Address = Self::Address>;

    type State: KVStoreMut;

    /// The storage of the current account. Each of these models is what an
    /// implementation states; the defaults describe a transaction that holds nothing.
    closed spec fn storage(&self) -> Map<Seq<u8>, Seq<u8>> {
        Map::empty()
    }

    /// The input provided by the calling context.
    closed spec fn input_data(&self) -> Seq<u8> {
        Seq::empty()
    }

    /// The bytecode of the account at `addr`, if that account exists.
    closed spec fn code(&self, addr: Self::Address) -> Option<Seq<u8>> {
        None
    }

    /// The balance of the account at `addr`, if that account exists.
    closed spec fn balance_of(&self, addr: Self::Address) -> Option<u64> {
        None
    }

    /// Everything returned or emitted so far, in order.
    closed spec fn outputs(&self) -> Seq<TxOutput> {
        Seq::empty()
    }

    /// Returns the address of the current contract instance.
    fn address(&self) -> &Self::Address;

    /// Returns the address of the sender of the transaction.
    fn sender(&self) -> &Self::Address;

    /// Returns the value sent to the current transaction.
    fn value(&self) -> u64;

    /// Returns the input provided by the calling context.
    fn input(&self) -> (r: &[u8])
        ensures
            r@ == self.input_data(),
    ;

    /// Executes a balance-transferring RPC to `callee` with provided input and value.
    fn transact(&mut self, callee: Self::Address, value: u64, input: &[u8]) -> Self::Receipt;

    /// Returns data to the calling transaction.
    fn ret(&mut self, data: &[u8])
        ensures
            final(self).input_data() == old(self).input_data(),
            forall|a: Self::Address| #[trigger] final(self).code(a) == old(self).code(a),
            forall|a: Self::Address| #[trigger] final(self).balance_of(a) == old(self).balance_of(a),
            final(self).storage() == old(self).storage(),
            final(self).outputs() == old(self).outputs().push(TxOutput::Return(data@)),
    ;

    /// Returns error data to the calling context.
    fn err(&mut self, data: &[u8])
        ensures
            final(self).input_data() == old(self).input_data(),
            forall|a: Self::Address| #[trigger] final(self).code(a) == old(self).code(a),
            forall|a: Self::Address| #[trigger] final(self).balance_of(a) == old(self).balance_of(a),
            final(self).storage() == old(self).storage(),
            final(self).outputs() == old(self).outputs().push(TxOutput::Error(data@)),
    ;

    /// Publishes a broadcast message in this block.
    fn emit(&mut self, topics: &[Vec<u8>], data: &[u8])
        ensures
            final(self).input_data() == old(self).input_data(),
            forall|a: Self::Address| #[trigger] final(self).code(a) == old(self).code(a),
            forall|a: Self::Address| #[trigger] final(self).balance_of(a) == old(self).balance_of(a),
            final(self).storage() == old(self).storage(),
            final(self).outputs() == old(self).outputs().push(
                TxOutput::Event(topics@.map_values(|t: Vec<u8>| t@), data@),
            ),
    ;

    /// Returns the state of the current account.
    fn state(&self) -> (r: &Self::State)
        ensures
            r.kv() == self.storage(),
    ;

    /// Returns the mutable state of the current account.
    fn state_mut(&mut self) -> (r: &mut Self::State)
        ensures
            r.kv() == old(self).storage(),
            final(self).storage() == final(r).kv(),
            final(self).input_data() == old(self).input_data(),
            forall|a: Self::Address| #[trigger] final(self).code(a) == old(self).code(a),
            forall|a: Self::Address| #[trigger] final(self).balance_of(a) == old(self).balance_of(a),
            final(self).outputs() == old(self).outputs(),
    ;

    /// Returns the bytecode stored at `addr` or `None` if the account does not exist.
    fn code_at(&self, addr: &Self::Address) -> (r: Option<&[u8]>)
        ensures
            r is Some <==> self.code(*addr) is Some,
            r matches Some(c) ==> c@ == self.code(*addr)->0,
    ;

    /// Returns the metadata of the account stored at `addr`, or
    /// `None` if the account does not exist.
    fn account_meta_at(&self, addr: &Self::Address) -> (r: Option<Self::AccountMeta>)
        ensures
            r is Some <==> self.balance_of(*addr) is Some,
            r matches Some(m) ==> m.spec_balance() == self.balance_of(*addr)->0,
    ;
}

pub trait Block {
    type Address: Address;

    type AccountMeta: AccountMeta;

    type Receipt: Receipt<Address = Self::Address>;

    type Event: Event<Address = Self::Address>;

    type State: KVStore;

    /// Returns the height of this block.
    fn height(&self) -> u64;

    /// Executes a RPC to `callee` with provided `input` and `gas` computational resources.
    /// `value` tokens will be transferred from the `caller` to the `callee`.
    /// The `caller` is charged `gas * gas_price` for the computation.
    /// A transaction that aborts (panics) will have its changes rolled back.
    fn transact(
        &mut self,
        caller: Self::Address,
        callee: Self::Address,
        payer: Self::Address,
        value: u64,
        input: &[u8],
        gas: u64,
        gas_price: u64,
    ) -> Self::Receipt;

    /// Returns the bytecode stored at `addr` or `None` if the account does not exist.
    fn code_at(&self, addr: &Self::Address) -> Option<&[u8]>;

    /// Returns the metadata of the account stored at `addr`, or
    /// `None` if the account does not exist.
    fn account_meta_at(&self, addr: &Self::Address) -> Option<Self::AccountMeta>;

    /// Returns the state of the acount at `addr`, if it exists.
    fn state_at(&self, addr: &Self::Address) -> Option<&Self::State>;

    /// Returns the events emitted during the course of this block.
    fn events(&self) -> Vec<&Self::Event>;

    /// Returns the receipts of transactions executed in this block.
    fn receipts(&self) -> Vec<&Self::Receipt>;
}

pub trait Blockchain {
    /// Type representing a handle to a service.
    type Address: Address;

    /// Account metadata (e.g., balance, expiry)
    type AccountMeta: AccountMeta;

    type Block: Block<Address = Self::Address, AccountMeta = Self::AccountMeta>;

    /// Returns the name of this blockchain.
    fn name(&self) -> &str;

    /// Returns the block at a given height.
    fn block(&self, height: usize) -> Option<&Self::Block>;

    /// Returns a reference to the block at the current maximum height.
    fn last_block(&self) -> &Self::Block;

    /// Returns a mutable reference to the block at the current maximum height.
    fn last_block_mut(&mut self) -> &mut Self::Block;
}

/// The outcome of a transaction.
#[derive(Clone, Copy, PartialEq, Eq, Structural, Debug)]
pub enum TransactionOutcome {
    Success,
    InsufficientFunds,
    InsufficientGas,
    InvalidInput,
    InvalidCallee,
    /// A recoverable error.
    Aborted,
    Fatal,
}

impl TransactionOutcome {
    /// Returns whether a transaction with this outcome was reverted:
    /// every outcome but `Success` reverts the transaction.
    pub fn reverted(self) -> (r: bool)
        ensures
            r == (self != TransactionOutcome::Success),
    {
        match self {
            TransactionOutcome::Success => false,
            _ => true,
        }
    }
}

} // verus!
