use vstd::prelude::*;
use crate::error::Error;
use crate::secrets::{active_secret, copy_bytes};
use crate::slots::{dense, Slots};
use crate::state::{Output, OutputModel, State};
use crate::transaction::resolved_value;
use crate::util::{
    get_remaining_funds, has_zero_output, input_total, output_total, remaining_funds, remaining_value, sum_inputs,
    sum_outputs, zero_output_index,
};

verus! {

/// A transaction input, ready to be signed: the outpoint it spends, its
/// sequence value, and the value and locking script of the spent coin.
#[derive(Debug)]
pub struct PlannedInput {
    pub txid: Vec<u8>,
    pub vout: u32,
    pub sequence: u32,
    pub value: u64,
    pub script_pubkey: Vec<u8>,
}

/// A transaction output: its value and locking script.
#[derive(Debug)]
pub struct PlannedOutput {
    pub value: u64,
    pub script_pubkey: Vec<u8>,
}

/// The unsigned transaction: inputs and outputs in index order, with the
/// version, the absolute lock time and the fee.
#[derive(Debug)]
pub struct TxPlan {
    pub version: u32,
    pub locktime: u32,
    pub inputs: Vec<PlannedInput>,
    pub outputs: Vec<PlannedOutput>,
    pub fee: u64,
}

/// The transaction version used.
pub const TX_VERSION: u32 = 2;

/// Why the staged transaction cannot be assembled, if it cannot: a gap among
/// the input indices, a gap among the output indices, inputs that do not cover
/// the outputs and the fee, or remaining funds beyond 64 bits.
pub open spec fn plan_error(state: State) -> Option<Error> {
    if !dense(state.inputs@) {
        Some(Error::MissingInput)
    } else if !dense(state.outputs@) {
        Some(Error::MissingOutput)
    } else if remaining_value(state) < 0 {
        Some(Error::NotEnoughFunds)
    } else if has_zero_output(state.outputs@) && remaining_value(state) > u64::MAX {
        Some(Error::ValueOverflow)
    } else {
        None
    }
}

/// With inputs and outputs each indexed without gaps, a transaction can be
/// assembled exactly when the inputs cover the outputs and the fee; the only
/// error then is the lack of funds; and the output of value zero, if any,
/// receives exactly the inputs minus the outputs minus the fee.
pub proof fn lemma_assembly_balance(state: State)
    requires
        state.wf(),
        dense(state.inputs@),
        dense(state.outputs@),
        remaining_value(state) <= u64::MAX,
    ensures
        plan_error(state) is None <==> input_total(state.inputs@) >= output_total(state.outputs@) + state.fee,
        plan_error(state) is Some ==> plan_error(state) == Some(Error::NotEnoughFunds),
        plan_error(state) is None && has_zero_output(state.outputs@) ==> remaining_funds(state) == Ok::<Option<(usize, u64)>, Error>(
            Some((
                zero_output_index(state.outputs@),
                (input_total(state.inputs@) - output_total(state.outputs@) - state.fee) as u64,
            )),
        ),
{
}

/// Whether the entries' indices are exactly 0, 1, ..., n - 1.
fn is_dense<T: View>(slots: &Slots<T>) -> (r: bool)
    ensures
        r == dense(slots@),
{
    let mut i: usize = 0;
    while i < slots.entries.len()
        invariant
            i <= slots@.len(),
            slots@.len() == slots.entries@.len(),
            forall|j: int| 0 <= j < i ==> #[trigger] slots@[j].0 == j,
        decreases slots.entries@.len() - i,
    {
        if slots.entries[i].0 != i {
            assert(slots@[i as int].0 != i);
            return false;
        }
        i = i + 1;
    }
    true
}

/// Builds the unsigned transaction from the staged inputs and outputs.
///
/// Inputs and outputs must each have the indices 0, 1, ..., n - 1. The inputs
/// must cover the outputs and the fee; the output of value zero, if any,
/// receives what remains, and that value is written back into the staged
/// output.
pub fn plan_transaction(state: &mut State) -> (r: Result<TxPlan, Error>)
    requires
        old(state).wf(),
    ensures
        final(state).wf(),
        r is Err <==> plan_error(*old(state)) is Some,
        r matches Err(e) ==> plan_error(*old(state)) == Some(e) && *final(state) == *old(state),
        r matches Ok(plan) ==> plan.version == TX_VERSION && plan.locktime == old(state).locktime
            && plan.fee == old(state).fee,
        r matches Ok(plan) ==> plan.inputs@.len() == old(state).inputs@.len() && forall|i: int|
            0 <= i < plan.inputs@.len() ==> {
                let u = #[trigger] old(state).inputs@[i].1;
                &&& plan.inputs@[i].txid@ == u.utxo.txid
                &&& plan.inputs@[i].vout == u.utxo.vout
                &&& plan.inputs@[i].sequence == u.sequence
                &&& plan.inputs@[i].value == u.utxo.value
                &&& plan.inputs@[i].script_pubkey@ == u.utxo.descriptor.script_pubkey
            },
        r matches Ok(plan) ==> plan.outputs@.len() == old(state).outputs@.len() && forall|i: int|
            0 <= i < plan.outputs@.len() ==> {
                let o = #[trigger] old(state).outputs@[i];
                &&& plan.outputs@[i].value == resolved_value(o.0, o.1, remaining_funds(*old(state))->Ok_0)
                &&& plan.outputs@[i].script_pubkey@ == o.1.descriptor.script_pubkey
            },
        r is Ok ==> *final(state) == (State { outputs: final(state).outputs, ..*old(state) }),
        r is Ok ==> final(state).outputs.map() == match remaining_funds(*old(state))->Ok_0 {
            Some((k, v)) => old(state).outputs.map().insert(
                k,
                OutputModel { value: v, descriptor: old(state).outputs.map()[k].descriptor },
            ),
            None => old(state).outputs.map(),
        },
{
    if !is_dense(&state.inputs) {
        return Err(Error::MissingInput);
    }
    if !is_dense(&state.outputs) {
        return Err(Error::MissingOutput);
    }
    let input_funds = sum_inputs(&state.inputs);
    let fixed = sum_outputs(&state.outputs);
    let n: usize = state.outputs.entries.len();
    assert(fixed <= 0xFFFF_FFFF_FFFF_FFFFu128 * 0xFFFF_FFFF_FFFF_FFFFu128) by (nonlinear_arith)
        requires
            fixed <= n * 0xFFFF_FFFF_FFFF_FFFFu128,
            n <= 0xFFFF_FFFF_FFFF_FFFFu128,
    ;
    if input_funds < fixed + state.fee as u128 {
        return Err(Error::NotEnoughFunds);
    }
    let remaining = get_remaining_funds(state)?;

    let mut inputs: Vec<PlannedInput> = Vec::new();
    let mut i: usize = 0;
    while i < state.inputs.entries.len()
        invariant
            i <= state.inputs@.len(),
            state.inputs@.len() == state.inputs.entries@.len(),
            inputs@.len() == i,
            forall|j: int| 0 <= j < i ==> {
                let u = #[trigger] state.inputs@[j].1;
                &&& inputs@[j].txid@ == u.utxo.txid
                &&& inputs@[j].vout == u.utxo.vout
                &&& inputs@[j].sequence == u.sequence
                &&& inputs@[j].value == u.utxo.value
                &&& inputs@[j].script_pubkey@ == u.utxo.descriptor.script_pubkey
            },
        decreases state.inputs.entries@.len() - i,
    {
        let input = &state.inputs.entries[i].1;
        inputs.push(PlannedInput {
            txid: copy_bytes(&input.utxo.txid),
            vout: input.utxo.vout,
            sequence: input.sequence,
            value: input.utxo.value,
            script_pubkey: copy_bytes(&input.utxo.descriptor.script_pubkey),
        });
        i = i + 1;
    }

    let mut outputs: Vec<PlannedOutput> = Vec::new();
    let mut i: usize = 0;
    while i < state.outputs.entries.len()
        invariant
            i <= state.outputs@.len(),
            state.outputs@.len() == state.outputs.entries@.len(),
            outputs@.len() == i,
            forall|j: int| 0 <= j < i ==> {
                let o = #[trigger] state.outputs@[j];
                &&& outputs@[j].value == resolved_value(o.0, o.1, remaining)
                &&& outputs@[j].script_pubkey@ == o.1.descriptor.script_pubkey
            },
        decreases state.outputs.entries@.len() - i,
    {
        let index = state.outputs.entries[i].0;
        let output = &state.outputs.entries[i].1;
        let value = match remaining {
            Some((k, v)) => if k == index { v } else { output.value },
            None => output.value,
        };
        outputs.push(PlannedOutput { value, script_pubkey: copy_bytes(&output.descriptor.script_pubkey) });
        i = i + 1;
    }

    // write the remaining funds back into the staged output
    match remaining {
        Some((k, v)) => {
            let ghost m0 = state.outputs.map();
            let ghost s0 = *state;
            match state.outputs.remove(k) {
                Some(o) => {
                    let ghost m1 = state.outputs.map();
                    let ghost x = OutputModel { value: v, descriptor: o.descriptor@ };
                    state.outputs.insert(k, Output { value: v, descriptor: o.descriptor });
                    assert(m1.insert(k, x) =~= m0.insert(k, x));
                    proof {
                        crate::output::lemma_one_zero_map(s0.outputs@);
                        crate::output::lemma_one_zero_map(state.outputs@);
                        let m2 = state.outputs.map();
                        assert forall|a: usize, b: usize|
                            m2.contains_key(a) && m2.contains_key(b) && #[trigger] m2[a].value == 0
                                && #[trigger] m2[b].value == 0 implies a == b by {
                            if a != k && b != k {
                                assert(m0[a].value == 0 && m0[b].value == 0);
                            } else if a == k && b != k {
                                assert(m0[b].value == 0);
                                assert(m0[k].value == 0) by {
                                    let c = choose|j: int| 0 <= j < s0.outputs@.len() && #[trigger] s0.outputs@[j].1.value == 0;
                                    crate::slots::lemma_map_at(s0.outputs@, c);
                                }
                            } else if b == k && a != k {
                                assert(m0[a].value == 0);
                                assert(m0[k].value == 0) by {
                                    let c = choose|j: int| 0 <= j < s0.outputs@.len() && #[trigger] s0.outputs@[j].1.value == 0;
                                    crate::slots::lemma_map_at(s0.outputs@, c);
                                }
                            }
                        }
                    }
                },
                None => {
                    proof {
                        let c = choose|j: int| 0 <= j < s0.outputs@.len() && #[trigger] s0.outputs@[j].1.value == 0;
                        crate::slots::lemma_map_at(s0.outputs@, c);
                    }
                },
            }
        },
        None => {},
    }

    Ok(TxPlan { version: TX_VERSION, locktime: state.locktime, inputs, outputs, fee: state.fee })
}

impl State {
    /// The secret key for the x-only public key `pubkey`, where the key pair is
    /// active; passive key pairs are never used for signing.
    pub fn active_key(&self, pubkey: &Vec<u8>) -> (r: Option<Vec<u8>>)
        requires
            self.wf(),
        ensures
            r matches Some(s) ==> active_secret(self.keys@, pubkey@) == Some(s@),
            r is None ==> active_secret(self.keys@, pubkey@) is None,
    {
        self.keys.active_secret(pubkey)
    }

    /// The preimage of the hash image `image`, where the pair is active;
    /// passive preimages are never revealed.
    pub fn lookup_preimage(&self, image: &Vec<u8>) -> (r: Option<Vec<u8>>)
        requires
            self.wf(),
        ensures
            r matches Some(p) ==> active_secret(self.images@, image@) == Some(p@),
            r is None ==> active_secret(self.images@, image@) is None,
    {
        self.images.active_secret(image)
    }
}

} // verus!
