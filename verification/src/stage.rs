//! The batch-execution (mutational) stage: the policy gate that chooses
//! between the serial and the accelerated path, the marshalling of
//! environment and storage into the backend's buffers, and the
//! reconciliation of per-lane verdicts back into the serial evaluator.

use vstd::prelude::*;
use crate::config::STATS_CPU_DEFAULT;
use crate::corpus::Input;
use crate::fuzzer::ExecuteCudaInputResult;
use crate::u256::U256;

verus! {

/// Upper bound on the iterations one stage round performs per testcase.
pub const DEFAULT_MUTATIONAL_MAX_ITERATIONS: u64 = 128;

/// Whether a round runs the batch path: only once the accelerator is
/// present and the serial warm-up time has passed.
pub fn use_batch_path(gpu_enabled: bool, elapsed_secs: u64) -> (b: bool)
    ensures
        b == (gpu_enabled && elapsed_secs > STATS_CPU_DEFAULT),
{
    gpu_enabled && elapsed_secs > STATS_CPU_DEFAULT
}

/// Number of iterations a stage round performs, derived from one random
/// draw: at least one, at most the configured maximum.
pub fn iterations(rand_draw: u64) -> (n: usize)
    ensures
        n == 1 + rand_draw % DEFAULT_MUTATIONAL_MAX_ITERATIONS,
        1 <= n <= DEFAULT_MUTATIONAL_MAX_ITERATIONS,
{
    (1 + rand_draw % DEFAULT_MUTATIONAL_MAX_ITERATIONS) as usize
}

/// Whether the batch boost is skipped for this input after its serial
/// evaluation: stepped inputs and selector-only calldata never batch, and
/// without a near-missed branch a tenth of the rounds sit out.
pub open spec fn spec_skip_batch_boost(
    is_step: bool,
    calldata_len: nat,
    branch_distance_interesting: bool,
    rand_pct: u64,
) -> bool {
    ||| is_step
    ||| calldata_len <= 4
    ||| (!branch_distance_interesting && rand_pct % 100 < 10)
}

/// Decides whether to skip the batch boost for this input.
pub fn skip_batch_boost(
    input: &Input,
    branch_distance_interesting: bool,
    rand_pct: u64,
) -> (b: bool)
    ensures
        b == spec_skip_batch_boost(
            input.is_step,
            input.calldata@.len(),
            branch_distance_interesting,
            rand_pct,
        ),
{
    if input.is_step || input.calldata.len() <= 4 {
        return true;
    }
    if !branch_distance_interesting {
        if rand_pct % 100 < 10 {
            return true;
        }
    }
    false
}

/// How many havoc mutation passes the backend applies this round: three
/// fifths of the rounds havoc between one and four times, the rest once.
pub fn havoc_times(rand_pct: u64, rand_small: u64) -> (n: u64)
    ensures
        n == if rand_pct % 100 < 60 {
            1 + rand_small % 4
        } else {
            1int
        },
        1 <= n <= 4,
{
    let should_havoc = rand_pct % 100 < 60;
    if should_havoc {
        1 + rand_small % 4
    } else {
        1
    }
}

/// The bytes one storage slot marshals to: the key's 32 little-endian
/// bytes, then the value's.
pub open spec fn spec_marshal_slot(slot: (U256, U256)) -> Seq<u8> {
    slot.0.spec_to_le_bytes() + slot.1.spec_to_le_bytes()
}

/// The backend storage buffer: every slot marshalled in order.
pub open spec fn spec_marshal_storage(slots: Seq<(U256, U256)>) -> Seq<u8>
    decreases slots.len(),
{
    if slots.len() == 0 {
        Seq::empty()
    } else {
        spec_marshal_storage(slots.drop_last()) + spec_marshal_slot(slots.last())
    }
}

/// Marshalled storage is 64 bytes per slot.
pub proof fn lemma_marshal_storage_len(slots: Seq<(U256, U256)>)
    ensures
        spec_marshal_storage(slots).len() == 64 * slots.len(),
    decreases slots.len(),
{
    vstd::bytes::lemma_auto_spec_u64_to_from_le_bytes();
    if slots.len() > 0 {
        lemma_marshal_storage_len(slots.drop_last());
    }
}

/// Marshals the contract's storage slots into the backend's buffer:
/// 64 bytes per slot, key then value, little-endian.
pub fn marshal_storage(slots: &Vec<(U256, U256)>) -> (b: Vec<u8>)
    ensures
        b@ == spec_marshal_storage(slots@),
        b@.len() == 64 * slots@.len(),
{
    let mut b: Vec<u8> = Vec::new();
    let mut i: usize = 0;
    proof {
        assert(slots@.take(0) =~= Seq::<(U256, U256)>::empty());
    }
    while i < slots.len()
        invariant
            i <= slots@.len(),
            b@ == spec_marshal_storage(slots@.take(i as int)),
            b@.len() == 64 * i,
        decreases slots@.len() - i,
    {
        proof {
            assert(slots@.take(i + 1).drop_last() =~= slots@.take(i as int));
            assert(slots@.take(i + 1).last() == slots@[i as int]);
        }
        let slot = &slots[i];
        let mut key_bytes = slot.0.to_le_bytes();
        let mut value_bytes = slot.1.to_le_bytes();
        b.append(&mut key_bytes);
        b.append(&mut value_bytes);
        i += 1;
    }
    proof {
        assert(slots@.take(slots@.len() as int) =~= slots@);
        lemma_marshal_storage_len(slots@);
    }
    b
}

/// The slots a well-formed storage buffer unmarshals to.
pub open spec fn spec_unmarshal_storage(b: Seq<u8>) -> Seq<(U256, U256)>
    decreases b.len(),
{
    if b.len() < 64 {
        Seq::empty()
    } else {
        spec_unmarshal_storage(b.take(b.len() - 64)).push(
            (
                crate::u256::spec_u256_from_le_bytes(b.subrange(b.len() - 64, b.len() - 32)),
                crate::u256::spec_u256_from_le_bytes(b.subrange(b.len() - 32, b.len() as int)),
            ),
        )
    }
}

/// Storage round-trips losslessly through the marshal boundary.
pub proof fn lemma_marshal_storage_roundtrip(slots: Seq<(U256, U256)>)
    ensures
        spec_unmarshal_storage(spec_marshal_storage(slots)) =~= slots,
    decreases slots.len(),
{
    vstd::bytes::lemma_auto_spec_u64_to_from_le_bytes();
    lemma_marshal_storage_len(slots);
    if slots.len() > 0 {
        lemma_marshal_storage_len(slots.drop_last());
        let b = spec_marshal_storage(slots);
        let key = slots.last().0;
        let value = slots.last().1;
        assert(b.take(b.len() - 64) =~= spec_marshal_storage(slots.drop_last()));
        assert(b.subrange(b.len() - 64, b.len() - 32) =~= key.spec_to_le_bytes());
        assert(b.subrange(b.len() - 32, b.len() as int) =~= value.spec_to_le_bytes());
        crate::u256::lemma_u256_from_to_le_bytes(key);
        crate::u256::lemma_u256_from_to_le_bytes(value);
        lemma_marshal_storage_roundtrip(slots.drop_last());
    }
}

/// Unmarshals a storage buffer read back from the backend; a buffer that
/// is not a whole number of slots is refused.
pub fn unmarshal_storage(b: &Vec<u8>) -> (r: Option<Vec<(U256, U256)>>)
    ensures
        r is Some <==> b@.len() % 64 == 0,
        r matches Some(slots) ==> slots@ == spec_unmarshal_storage(b@),
{
    if b.len() % 64 != 0 {
        return None;
    }
    let mut slots: Vec<(U256, U256)> = Vec::new();
    let mut i: usize = 0;
    proof {
        assert(b@.take(0) =~= Seq::<u8>::empty());
    }
    while i < b.len()
        invariant
            i <= b@.len(),
            i % 64 == 0,
            b@.len() % 64 == 0,
            slots@ == spec_unmarshal_storage(b@.take(i as int)),
        decreases b@.len() - i,
    {
        proof {
            assert(b@.len() - i >= 64) by {
                vstd::arithmetic::div_mod::lemma_mod_adds(i as int, (b@.len() - i) as int, 64);
            }
        }
        let key = crate::u256::u256_from_le_slice(b, i, i + 32);
        let value = crate::u256::u256_from_le_slice(b, i + 32, i + 64);
        slots.push((key, value));
        proof {
            let pre = b@.take(i + 64);
            assert(pre.len() == i + 64);
            assert(pre.take(pre.len() - 64) =~= b@.take(i as int));
            assert(pre.subrange(pre.len() - 64, pre.len() - 32) =~= b@.subrange(
                i as int,
                i + 32,
            ));
            assert(pre.subrange(pre.len() - 32, pre.len() as int) =~= b@.subrange(i + 32, i + 64));
        }
        i += 64;
    }
    proof {
        assert(b@.take(b@.len() as int) =~= b@);
    }
    Some(slots)
}

/// Offset of the big-endian call value in a lane's seed readback.
pub const SEED_VALUE_OFFSET: usize = 32;

/// Offset of the call data in a lane's seed readback.
pub const SEED_CALLDATA_OFFSET: usize = 68;

/// Applies one lane's seed readback onto a copy of the input the lane
/// mutated: the first 20 bytes are the caller, byte-reversed; bytes 32..64
/// are the call value, big-endian; the call data follows from byte 68.
/// Everything else of the input is kept.
pub fn reconcile_seed(base: Input, tx_bytes: &Vec<u8>, calldatasize: usize) -> (r: Input)
    requires
        tx_bytes@.len() >= SEED_CALLDATA_OFFSET + calldatasize,
    ensures
        r.caller@ == tx_bytes@.subrange(0, 20).reverse(),
        r.txn_value.spec_to_be_bytes() == tx_bytes@.subrange(
            SEED_VALUE_OFFSET as int,
            SEED_VALUE_OFFSET + 32,
        ),
        r.calldata@ == tx_bytes@.subrange(
            SEED_CALLDATA_OFFSET as int,
            SEED_CALLDATA_OFFSET + calldatasize,
        ),
        r.state_idx == base.state_idx,
        r.sstate == base.sstate,
        r.fav_factor == base.fav_factor,
        r.is_step == base.is_step,
        r.types_vec == base.types_vec,
{
    let mut caller: Vec<u8> = Vec::new();
    let mut i: usize = 20;
    while i > 0
        invariant
            i <= 20,
            tx_bytes@.len() >= 68,
            caller@.len() == 20 - i,
            forall|k: int| 0 <= k < caller@.len() ==> caller@[k] == tx_bytes@[19 - k],
        decreases i,
    {
        i -= 1;
        caller.push(tx_bytes[i]);
    }
    proof {
        assert(caller@ =~= tx_bytes@.subrange(0, 20).reverse());
    }
    let mut value_bytes: Vec<u8> = Vec::new();
    let mut j: usize = SEED_VALUE_OFFSET;
    while j < SEED_VALUE_OFFSET + 32
        invariant
            SEED_VALUE_OFFSET <= j <= SEED_VALUE_OFFSET + 32,
            tx_bytes@.len() >= 68,
            value_bytes@ == tx_bytes@.subrange(SEED_VALUE_OFFSET as int, j as int),
        decreases SEED_VALUE_OFFSET + 32 - j,
    {
        proof {
            assert(tx_bytes@.subrange(SEED_VALUE_OFFSET as int, j + 1) =~= tx_bytes@.subrange(
                SEED_VALUE_OFFSET as int,
                j as int,
            ).push(tx_bytes@[j as int]));
        }
        value_bytes.push(tx_bytes[j]);
        j += 1;
    }
    let txn_value = U256::from_be_bytes(&value_bytes);
    let mut calldata: Vec<u8> = Vec::new();
    let total_len = tx_bytes.len();
    let mut k: usize = 0;
    while k < calldatasize
        invariant
            k <= calldatasize,
            total_len == tx_bytes@.len(),
            tx_bytes@.len() >= SEED_CALLDATA_OFFSET + calldatasize,
            calldata@ == tx_bytes@.subrange(
                SEED_CALLDATA_OFFSET as int,
                SEED_CALLDATA_OFFSET + k,
            ),
        decreases calldatasize - k,
    {
        proof {
            assert(tx_bytes@.subrange(SEED_CALLDATA_OFFSET as int, SEED_CALLDATA_OFFSET + k + 1)
                =~= tx_bytes@.subrange(SEED_CALLDATA_OFFSET as int, SEED_CALLDATA_OFFSET + k).push(
                tx_bytes@[SEED_CALLDATA_OFFSET + k],
            ));
        }
        calldata.push(tx_bytes[SEED_CALLDATA_OFFSET + k]);
        k += 1;
    }
    Input {
        caller,
        txn_value,
        calldata,
        state_idx: base.state_idx,
        sstate: base.sstate,
        fav_factor: base.fav_factor,
        is_step: base.is_step,
        types_vec: base.types_vec,
    }
}

/// Builds a lane's seed buffer in the layout `reconcile_seed` reads:
/// reversed caller, zero padding, big-endian value, the call-data size as
/// four little-endian bytes, then the call data.
pub fn encode_seed(caller: &Vec<u8>, value: &U256, calldata: &Vec<u8>) -> (b: Vec<u8>)
    requires
        caller@.len() == 20,
        calldata@.len() <= u32::MAX,
    ensures
        b@.len() == SEED_CALLDATA_OFFSET + calldata@.len(),
        b@.subrange(0, 20) == caller@.reverse(),
        b@.subrange(SEED_VALUE_OFFSET as int, SEED_VALUE_OFFSET + 32) == value.spec_to_be_bytes(),
        b@.subrange(SEED_CALLDATA_OFFSET as int, SEED_CALLDATA_OFFSET + calldata@.len())
            == calldata@,
{
    let mut b: Vec<u8> = Vec::new();
    let mut i: usize = 20;
    while i > 0
        invariant
            i <= 20,
            caller@.len() == 20,
            b@.len() == 20 - i,
            forall|k: int| 0 <= k < b@.len() ==> b@[k] == caller@[19 - k],
        decreases i,
    {
        i -= 1;
        b.push(caller[i]);
    }
    let ghost rev_caller = b@;
    proof {
        assert(rev_caller =~= caller@.reverse());
    }
    let mut pad: usize = 0;
    while pad < 12
        invariant
            pad <= 12,
            b@.len() == 20 + pad,
            b@.subrange(0, 20) == rev_caller,
        decreases 12 - pad,
    {
        proof {
            assert(b@.push(0u8).subrange(0, 20) =~= b@.subrange(0, 20));
        }
        b.push(0);
        pad += 1;
    }
    let mut value_bytes = value.to_be_bytes();
    b.append(&mut value_bytes);
    let ghost b64 = b@;
    proof {
        assert(b64.subrange(0, 20) =~= rev_caller);
        assert(b64.subrange(SEED_VALUE_OFFSET as int, SEED_VALUE_OFFSET + 32)
            =~= value.spec_to_be_bytes());
    }
    let size32 = calldata.len() as u32;
    let mut size_bytes = vstd::bytes::u32_to_le_bytes(size32);
    b.append(&mut size_bytes);
    let ghost b68 = b@;
    proof {
        assert(b68.subrange(0, 20) =~= rev_caller);
        assert(b68.subrange(SEED_VALUE_OFFSET as int, SEED_VALUE_OFFSET + 32)
            =~= value.spec_to_be_bytes());
    }
    let mut data = Vec::new();
    let mut k: usize = 0;
    while k < calldata.len()
        invariant
            k <= calldata@.len(),
            data@ == calldata@.take(k as int),
        decreases calldata@.len() - k,
    {
        proof {
            assert(calldata@.take(k + 1) =~= calldata@.take(k as int).push(calldata@[k as int]));
        }
        data.push(calldata[k]);
        k += 1;
    }
    proof {
        assert(calldata@.take(calldata@.len() as int) =~= calldata@);
    }
    b.append(&mut data);
    proof {
        assert(b@.subrange(0, 20) =~= b68.subrange(0, 20));
        assert(b@.subrange(SEED_VALUE_OFFSET as int, SEED_VALUE_OFFSET + 32) =~= b68.subrange(
            SEED_VALUE_OFFSET as int,
            SEED_VALUE_OFFSET + 32,
        ));
        assert(b@.subrange(SEED_CALLDATA_OFFSET as int, SEED_CALLDATA_OFFSET + calldata@.len())
            =~= calldata@);
    }
    b
}

/// Environment values round-trip losslessly through the seed buffer: the
/// caller, call value, and call data that `reconcile_seed`'s contract
/// reads out of a buffer `encode_seed` built are exactly the ones that
/// were encoded.
pub proof fn lemma_seed_roundtrip(
    caller: Seq<u8>,
    value: U256,
    calldata: Seq<u8>,
    buffer: Seq<u8>,
    out_caller: Seq<u8>,
    out_value: U256,
    out_calldata: Seq<u8>,
)
    requires
        caller.len() == 20,
        buffer.subrange(0, 20) == caller.reverse(),
        buffer.subrange(SEED_VALUE_OFFSET as int, SEED_VALUE_OFFSET + 32)
            == value.spec_to_be_bytes(),
        buffer.subrange(SEED_CALLDATA_OFFSET as int, SEED_CALLDATA_OFFSET + calldata.len())
            == calldata,
        out_caller == buffer.subrange(0, 20).reverse(),
        out_value.spec_to_be_bytes() == buffer.subrange(
            SEED_VALUE_OFFSET as int,
            SEED_VALUE_OFFSET + 32,
        ),
        out_calldata == buffer.subrange(
            SEED_CALLDATA_OFFSET as int,
            SEED_CALLDATA_OFFSET + calldata.len(),
        ),
    ensures
        out_caller == caller,
        out_value == value,
        out_calldata == calldata,
{
    assert(out_caller =~= caller);
    U256::lemma_to_be_bytes_injective(out_value, value);
}

/// Whether a lane's verdict sends it back through the serial evaluator:
/// interesting and buggy lanes are re-evaluated, reverted and unremarkable
/// lanes are dropped.
pub open spec fn spec_lane_reevaluated(v: ExecuteCudaInputResult) -> bool {
    v is EXECINTERESTING || v is EXECBUGGY
}

/// Decides whether one lane is re-evaluated serially.
pub fn lane_reevaluated(v: &ExecuteCudaInputResult) -> (b: bool)
    ensures
        b == spec_lane_reevaluated(*v),
{
    match v {
        ExecuteCudaInputResult::EXECINTERESTING => true,
        ExecuteCudaInputResult::EXECBUGGY => true,
        _ => false,
    }
}

/// The lanes of a round that go back through the serial evaluator, in
/// lane order.
pub open spec fn spec_plan_batch(verdicts: Seq<ExecuteCudaInputResult>) -> Seq<usize>
    decreases verdicts.len(),
{
    if verdicts.len() == 0 {
        Seq::empty()
    } else if spec_lane_reevaluated(verdicts.last()) {
        spec_plan_batch(verdicts.drop_last()).push((verdicts.len() - 1) as usize)
    } else {
        spec_plan_batch(verdicts.drop_last())
    }
}

/// Every planned lane is in range and re-evaluated, and every
/// re-evaluated lane is planned.
pub proof fn lemma_plan_batch_characterization(verdicts: Seq<ExecuteCudaInputResult>)
    requires
        verdicts.len() <= usize::MAX,
    ensures
        forall|k: int|
            0 <= k < spec_plan_batch(verdicts).len() ==> #[trigger] spec_plan_batch(verdicts)[k]
                < verdicts.len() && spec_lane_reevaluated(
                verdicts[spec_plan_batch(verdicts)[k] as int],
            ),
        forall|i: int|
            0 <= i < verdicts.len() && spec_lane_reevaluated(verdicts[i]) ==> spec_plan_batch(
                verdicts,
            ).contains(i as usize),
    decreases verdicts.len(),
{
    if verdicts.len() > 0 {
        lemma_plan_batch_characterization(verdicts.drop_last());
        let prev = spec_plan_batch(verdicts.drop_last());
        assert forall|i: int|
            0 <= i < verdicts.len() && spec_lane_reevaluated(
                verdicts[i],
            ) implies spec_plan_batch(verdicts).contains(i as usize) by {
            if i < verdicts.len() - 1 {
                assert(verdicts.drop_last()[i] == verdicts[i]);
                assert(prev.contains(i as usize));
                let k = choose|k: int| 0 <= k < prev.len() && prev[k] == i as usize;
                if spec_lane_reevaluated(verdicts.last()) {
                    assert(spec_plan_batch(verdicts)[k] == i as usize);
                } else {
                    assert(spec_plan_batch(verdicts)[k] == i as usize);
                }
            } else {
                assert(spec_plan_batch(verdicts).last() == i as usize);
            }
        }
        assert forall|k: int| 0 <= k < spec_plan_batch(verdicts).len() implies #[trigger]
        spec_plan_batch(verdicts)[k] < verdicts.len() && spec_lane_reevaluated(
            verdicts[spec_plan_batch(verdicts)[k] as int],
        ) by {
            if k < prev.len() {
                assert(spec_plan_batch(verdicts)[k] == prev[k]);
                assert(verdicts.drop_last()[prev[k] as int] == verdicts[prev[k] as int]);
            }
        }
    }
}

/// Collects the lanes whose verdicts send them back through the serial
/// evaluator.
pub fn plan_batch(verdicts: &Vec<ExecuteCudaInputResult>) -> (lanes: Vec<usize>)
    ensures
        lanes@ == spec_plan_batch(verdicts@),
{
    let mut lanes: Vec<usize> = Vec::new();
    let mut i: usize = 0;
    proof {
        assert(verdicts@.take(0) =~= Seq::<ExecuteCudaInputResult>::empty());
    }
    while i < verdicts.len()
        invariant
            i <= verdicts@.len(),
            lanes@ == spec_plan_batch(verdicts@.take(i as int)),
        decreases verdicts@.len() - i,
    {
        proof {
            assert(verdicts@.take(i + 1).drop_last() =~= verdicts@.take(i as int));
            assert(verdicts@.take(i + 1).last() == verdicts@[i as int]);
        }
        if lane_reevaluated(&verdicts[i]) {
            lanes.push(i);
        }
        i += 1;
    }
    proof {
        assert(verdicts@.take(verdicts@.len() as int) =~= verdicts@);
    }
    lanes
}

} // verus!
