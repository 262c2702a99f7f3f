//! The two components of the contract: the one-time initialization guard
//! and the trade equality validator.

use vstd::prelude::*;
use crate::assets::Transfer;
use crate::assets::AssetId;
use crate::assets::spec_standard_id;
use crate::dispatch::Operation;
use crate::response::CallResponse;
use crate::storage::KeyValueStore;

verus! {

/// Why an invocation was rejected.
#[derive(PartialEq, Eq, Structural, Clone, Copy, Debug)]
pub enum PredicateError {
    /// The one-time setup routine was invoked a second time.
    AlreadyInitialized,
    /// The invocation did not attach exactly two transfers.
    WrongLegCount,
    /// The attached transfers do not equal the configured trade terms.
    ParameterMismatch,
}

/// The bytes of the storage key under which the initialization flag is
/// kept: the byte string `/initialized`.
pub open spec fn spec_init_key() -> Seq<u8> {
    seq![47u8, 105u8, 110u8, 105u8, 116u8, 105u8, 97u8, 108u8, 105u8, 122u8, 101u8, 100u8]
}

/// The single sentinel byte written under the flag key on first
/// initialization. Only the key's presence carries meaning.
pub open spec fn spec_init_flag_value() -> Seq<u8> {
    seq![1u8]
}

/// Builds the initialization flag's storage key, `/initialized`.
pub fn init_key() -> (r: Vec<u8>)
    ensures
        r@ == spec_init_key(),
{
    let mut r: Vec<u8> = Vec::new();
    r.push(47u8);
    r.push(105u8);
    r.push(110u8);
    r.push(105u8);
    r.push(116u8);
    r.push(105u8);
    r.push(97u8);
    r.push(108u8);
    r.push(105u8);
    r.push(122u8);
    r.push(101u8);
    r.push(100u8);
    proof {
        assert(r@ =~= spec_init_key());
    }
    r
}

/// A store is initialized exactly when the flag key is present, whatever
/// value it holds.
pub open spec fn spec_is_initialized(s: Map<Seq<u8>, Seq<u8>>) -> bool {
    s.contains_key(spec_init_key())
}

/// An initialization attempt on store `s` succeeds exactly when `s` is
/// not yet initialized.
pub open spec fn spec_initialize_ok(s: Map<Seq<u8>, Seq<u8>>) -> bool {
    !spec_is_initialized(s)
}

/// What one initialization attempt leaves in the store: the flag is
/// created on the success path and nothing changes on the failure path.
pub open spec fn spec_after_initialize(s: Map<Seq<u8>, Seq<u8>>) -> Map<Seq<u8>, Seq<u8>> {
    if spec_is_initialized(s) {
        s
    } else {
        s.insert(spec_init_key(), spec_init_flag_value())
    }
}

/// The exact trade terms a two-leg bundle must meet: exactly two
/// transfers, and positionally, each leg's asset identifier (the
/// configured sequence number under the standard namespace) and quantity
/// equal the configured expectation. No tolerance, no reordering.
pub open spec fn spec_legs_match(
    transfers: Seq<Transfer>,
    sequence_left: u128,
    amount_left: u128,
    sequence_right: u128,
    amount_right: u128,
) -> bool {
    &&& transfers.len() == 2
    &&& transfers[0].id == spec_standard_id(sequence_left)
    &&& transfers[0].amount == amount_left
    &&& transfers[1].id == spec_standard_id(sequence_right)
    &&& transfers[1].amount == amount_right
}

/// Common predicate functionality: the exactly-once initialization guard.
pub trait EqualityPredicate {
    /// Records in persistent storage that initialization has happened.
    /// The first call on a given store succeeds and creates the flag;
    /// every later call fails and leaves the store untouched.
    fn observe_initialization(&self, storage: &mut KeyValueStore) -> (r: Result<
        (),
        PredicateError,
    >)
        ensures
            spec_initialize_ok(old(storage)@) ==> r is Ok,
            !spec_initialize_ok(old(storage)@) ==> r is Err && r->Err_0
                == PredicateError::AlreadyInitialized,
            final(storage)@ == spec_after_initialize(old(storage)@),
    ;
}

/// Predicate contract instance enforcing exact equality in a two-party
/// trade.
#[derive(Default)]
pub struct EqualityPredicateAlkane(());

impl EqualityPredicate for EqualityPredicateAlkane {
    fn observe_initialization(&self, storage: &mut KeyValueStore) -> (r: Result<
        (),
        PredicateError,
    >) {
        let key = init_key();
        let already = storage.get(&key).is_some();
        if already {
            Err(PredicateError::AlreadyInitialized)
        } else {
            let mut flag: Vec<u8> = Vec::new();
            flag.push(1u8);
            proof {
                assert(flag@ =~= spec_init_flag_value());
            }
            storage.set(key, flag);
            Ok(())
        }
    }
}

impl EqualityPredicateAlkane {
    /// A fresh predicate instance. The instance itself carries no state:
    /// all durable state lives in the storage handle passed to its
    /// methods.
    pub fn new() -> (r: EqualityPredicateAlkane) {
        EqualityPredicateAlkane(())
    }

    /// One-time contract setup: runs the initialization guard and, on
    /// success, forwards the invocation's attached transfers unchanged.
    pub fn initialize(&self, storage: &mut KeyValueStore, transfers: Vec<Transfer>) -> (r: Result<
        CallResponse,
        PredicateError,
    >)
        ensures
            spec_initialize_ok(old(storage)@) ==> r is Ok && r->Ok_0.transfers@ == transfers@
                && r->Ok_0.data@ == Seq::<u8>::empty(),
            !spec_initialize_ok(old(storage)@) ==> r is Err && r->Err_0
                == PredicateError::AlreadyInitialized,
            final(storage)@ == spec_after_initialize(old(storage)@),
    {
        let response = CallResponse::forward(transfers);
        match self.observe_initialization(storage) {
            Ok(_) => Ok(response),
            Err(_) => Err(PredicateError::AlreadyInitialized),
        }
    }

    /// The trade equality validator: accepts the attached transfers
    /// exactly when they are two legs matching the configured terms in
    /// order, and then forwards them unchanged. A pure decision over its
    /// inputs: it touches no storage.
    pub fn filter(
        &self,
        sequence_left: u128,
        amount_left: u128,
        sequence_right: u128,
        amount_right: u128,
        transfers: Vec<Transfer>,
    ) -> (r: Result<CallResponse, PredicateError>)
        ensures
            transfers@.len() != 2 ==> r is Err && r->Err_0 == PredicateError::WrongLegCount,
            transfers@.len() == 2 && !spec_legs_match(
                transfers@,
                sequence_left,
                amount_left,
                sequence_right,
                amount_right,
            ) ==> r is Err && r->Err_0 == PredicateError::ParameterMismatch,
            spec_legs_match(transfers@, sequence_left, amount_left, sequence_right, amount_right)
                ==> r is Ok && r->Ok_0.transfers@ == transfers@ && r->Ok_0.data@ == Seq::<
                u8,
            >::empty(),
    {
        if transfers.len() != 2 {
            return Err(PredicateError::WrongLegCount);
        }
        let left_id = AssetId::standard(sequence_left);
        let right_id = AssetId::standard(sequence_right);
        if transfers[0].id == left_id && transfers[0].amount == amount_left && transfers[1].id
            == right_id && transfers[1].amount == amount_right {
            Ok(CallResponse::forward(transfers))
        } else {
            Err(PredicateError::ParameterMismatch)
        }
    }

    /// Routes a decoded operation to its handler. A `Filter` operation
    /// never changes the store: the validator is stateless and
    /// side-effect-free per invocation.
    pub fn execute(
        &self,
        storage: &mut KeyValueStore,
        operation: Operation,
        transfers: Vec<Transfer>,
    ) -> (r: Result<CallResponse, PredicateError>)
        ensures
            operation is Initialize ==> {
                &&& spec_initialize_ok(old(storage)@) ==> r is Ok && r->Ok_0.transfers@
                    == transfers@ && r->Ok_0.data@ == Seq::<u8>::empty()
                &&& !spec_initialize_ok(old(storage)@) ==> r is Err && r->Err_0
                    == PredicateError::AlreadyInitialized
                &&& final(storage)@ == spec_after_initialize(old(storage)@)
            },
            operation matches Operation::Filter {
                sequence_left,
                amount_left,
                sequence_right,
                amount_right,
            } ==> {
                &&& final(storage)@ == old(storage)@
                &&& transfers@.len() != 2 ==> r is Err && r->Err_0 == PredicateError::WrongLegCount
                &&& transfers@.len() == 2 && !spec_legs_match(
                    transfers@,
                    sequence_left,
                    amount_left,
                    sequence_right,
                    amount_right,
                ) ==> r is Err && r->Err_0 == PredicateError::ParameterMismatch
                &&& spec_legs_match(
                    transfers@,
                    sequence_left,
                    amount_left,
                    sequence_right,
                    amount_right,
                ) ==> r is Ok && r->Ok_0.transfers@ == transfers@ && r->Ok_0.data@ == Seq::<
                    u8,
                >::empty()
            },
    {
        match operation {
            Operation::Initialize => self.initialize(storage, transfers),
            Operation::Filter { sequence_left, amount_left, sequence_right, amount_right } => self
                .filter(sequence_left, amount_left, sequence_right, amount_right, transfers),
        }
    }
}

/// The storage effect of one dispatched operation: an `Initialize`
/// invocation runs the guard; a `Filter` invocation leaves the store as
/// it was.
pub open spec fn spec_storage_after(s: Map<Seq<u8>, Seq<u8>>, op: Operation) -> Map<
    Seq<u8>,
    Seq<u8>,
> {
    match op {
        Operation::Initialize => spec_after_initialize(s),
        Operation::Filter { .. } => s,
    }
}

/// The store left behind after dispatching a sequence of operations in
/// order, starting from `s`.
pub open spec fn spec_run(s: Map<Seq<u8>, Seq<u8>>, ops: Seq<Operation>) -> Map<Seq<u8>, Seq<u8>>
    decreases ops.len(),
{
    if ops.len() == 0 {
        s
    } else {
        spec_run(spec_storage_after(s, ops[0]), ops.drop_first())
    }
}

/// Law: once a store is initialized, no sequence of dispatched operations
/// changes it: later `Initialize` invocations fail without touching it,
/// and `Filter` invocations never touch it.
pub proof fn lemma_initialized_store_is_final(s: Map<Seq<u8>, Seq<u8>>, ops: Seq<Operation>)
    requires
        spec_is_initialized(s),
    ensures
        spec_run(s, ops) == s,
    decreases ops.len(),
{
    if ops.len() > 0 {
        assert(spec_storage_after(s, ops[0]) == s);
        lemma_initialized_store_is_final(s, ops.drop_first());
    }
}

/// Law: a run of invocations none of which is an `Initialize` — in
/// particular, repeated `Filter` validations, accepted or rejected —
/// leaves any store exactly as it was: the validator persists nothing.
pub proof fn lemma_run_without_initialize(s: Map<Seq<u8>, Seq<u8>>, ops: Seq<Operation>)
    requires
        forall|k: int| 0 <= k < ops.len() ==> !(#[trigger] ops[k] is Initialize),
    ensures
        spec_run(s, ops) == s,
    decreases ops.len(),
{
    if ops.len() > 0 {
        let rest = ops.drop_first();
        assert forall|k: int| 0 <= k < rest.len() implies !(#[trigger] rest[k] is Initialize) by {
            assert(rest[k] == ops[k + 1]);
        }
        lemma_run_without_initialize(s, rest);
    }
}

/// Running a concatenation is running the two halves in turn.
proof fn lemma_run_append(s: Map<Seq<u8>, Seq<u8>>, a: Seq<Operation>, b: Seq<Operation>)
    ensures
        spec_run(s, a + b) == spec_run(spec_run(s, a), b),
    decreases a.len(),
{
    if a.len() == 0 {
        assert(a + b =~= b);
    } else {
        assert((a + b)[0] == a[0]);
        assert((a + b).drop_first() =~= a.drop_first() + b);
        lemma_run_append(spec_storage_after(s, a[0]), a.drop_first(), b);
    }
}

/// Law: starting from a store that was never initialized, in any sequence
/// of dispatched operations the first `Initialize` invocation finds the
/// store uninitialized and so succeeds, and from then on the store is
/// initialized, so an `Initialize` at any later position fails with
/// `AlreadyInitialized`.
pub proof fn lemma_initialize_exactly_once(
    s: Map<Seq<u8>, Seq<u8>>,
    ops: Seq<Operation>,
    i: int,
    j: int,
)
    requires
        !spec_is_initialized(s),
        0 <= i < j <= ops.len(),
        forall|k: int| 0 <= k < i ==> !(#[trigger] ops[k] is Initialize),
        ops[i] is Initialize,
    ensures
        spec_initialize_ok(spec_run(s, ops.take(i))),
        !spec_initialize_ok(spec_run(s, ops.take(j))),
{
    let before = ops.take(i);
    assert forall|k: int| 0 <= k < before.len() implies !(#[trigger] before[k] is Initialize) by {
        assert(before[k] == ops[k]);
    }
    lemma_run_without_initialize(s, before);
    let upto = ops.take(i + 1);
    let one = seq![ops[i]];
    assert(upto =~= before + one);
    lemma_run_append(s, before, one);
    assert(one.len() == 1 && one[0] == ops[i]);
    assert(one.drop_first() =~= Seq::<Operation>::empty());
    assert(spec_run(s, one) == spec_run(spec_storage_after(s, ops[i]), one.drop_first()));
    assert(spec_run(spec_storage_after(s, ops[i]), one.drop_first()) == spec_storage_after(
        s,
        ops[i],
    ));
    assert(spec_run(s, upto) == spec_after_initialize(s));
    assert(spec_is_initialized(spec_run(s, upto)));
    assert(ops.take(j) =~= upto + ops.subrange(i + 1, j));
    lemma_run_append(s, upto, ops.subrange(i + 1, j));
    lemma_initialized_store_is_final(spec_run(s, upto), ops.subrange(i + 1, j));
}

} // verus!
