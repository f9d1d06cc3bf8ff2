use vstd::prelude::*;
use crate::error::Error;
use crate::slots::Slots;
use crate::state::{Input, InputModel, Output, OutputModel, State};

verus! {

/// The summed value of the coins that the inputs spend.
pub open spec fn input_total(v: Seq<(usize, InputModel)>) -> int
    decreases v.len(),
{
    if v.len() == 0 {
        0
    } else {
        input_total(v.drop_last()) + v.last().1.utxo.value
    }
}

/// The summed value of the outputs (the output with value zero adds nothing).
pub open spec fn output_total(v: Seq<(usize, OutputModel)>) -> int
    decreases v.len(),
{
    if v.len() == 0 {
        0
    } else {
        output_total(v.drop_last()) + v.last().1.value
    }
}

/// Some output has value zero.
pub open spec fn has_zero_output(v: Seq<(usize, OutputModel)>) -> bool {
    exists|i: int| 0 <= i < v.len() && #[trigger] v[i].1.value == 0
}

/// The index of the output with value zero, where there is one.
pub open spec fn zero_output_index(v: Seq<(usize, OutputModel)>) -> usize {
    v[choose|i: int| 0 <= i < v.len() && #[trigger] v[i].1.value == 0].0
}

/// What the inputs leave after the outputs and the fee.
pub open spec fn remaining_value(state: State) -> int {
    input_total(state.inputs@) - (output_total(state.outputs@) + state.fee)
}

/// The output that receives the remaining funds and what it receives: none
/// where no output has value zero; an error where the inputs do not cover the
/// outputs and the fee, or what remains does not fit in 64 bits.
pub open spec fn remaining_funds(state: State) -> Result<Option<(usize, u64)>, Error> {
    if !has_zero_output(state.outputs@) {
        Ok(None)
    } else if remaining_value(state) < 0 {
        Err(Error::NotEnoughFunds)
    } else if remaining_value(state) > u64::MAX {
        Err(Error::ValueOverflow)
    } else {
        Ok(Some((zero_output_index(state.outputs@), remaining_value(state) as u64)))
    }
}

/// The summed value of the coins that the inputs spend.
pub fn sum_inputs(inputs: &Slots<Input>) -> (r: u128)
    ensures
        r == input_total(inputs@),
{
    let mut total: u128 = 0;
    let mut i: usize = 0;
    while i < inputs.entries.len()
        invariant
            i <= inputs@.len(),
            inputs@.len() == inputs.entries@.len(),
            total == input_total(inputs@.subrange(0, i as int)),
            total <= i * 0xFFFF_FFFF_FFFF_FFFFu128,
        decreases inputs.entries@.len() - i,
    {
        assert(inputs@.subrange(0, i as int + 1).drop_last() =~= inputs@.subrange(0, i as int));
        total = total + inputs.entries[i].1.utxo.value as u128;
        i = i + 1;
    }
    assert(inputs@.subrange(0, i as int) =~= inputs@);
    total
}

/// The summed value of the outputs.
pub fn sum_outputs(outputs: &Slots<Output>) -> (r: u128)
    ensures
        r == output_total(outputs@),
        r <= outputs@.len() * 0xFFFF_FFFF_FFFF_FFFFu128,
{
    let mut total: u128 = 0;
    let mut i: usize = 0;
    while i < outputs.entries.len()
        invariant
            i <= outputs@.len(),
            outputs@.len() == outputs.entries@.len(),
            total == output_total(outputs@.subrange(0, i as int)),
            total <= i * 0xFFFF_FFFF_FFFF_FFFFu128,
        decreases outputs.entries@.len() - i,
    {
        assert(outputs@.subrange(0, i as int + 1).drop_last() =~= outputs@.subrange(0, i as int));
        total = total + outputs.entries[i].1.value as u128;
        i = i + 1;
    }
    assert(outputs@.subrange(0, i as int) =~= outputs@);
    total
}

/// The position of the output with value zero, where there is one.
pub fn find_zero_output(outputs: &Slots<Output>) -> (r: Option<usize>)
    requires
        crate::state::at_most_one_zero(outputs@),
    ensures
        r is Some <==> has_zero_output(outputs@),
        r matches Some(p) ==> p < outputs@.len() && outputs@[p as int].1.value == 0
            && outputs@[p as int].0 == zero_output_index(outputs@),
{
    let mut i: usize = 0;
    while i < outputs.entries.len()
        invariant
            i <= outputs@.len(),
            outputs@.len() == outputs.entries@.len(),
            crate::state::at_most_one_zero(outputs@),
            forall|j: int| 0 <= j < i ==> #[trigger] outputs@[j].1.value != 0,
        decreases outputs.entries@.len() - i,
    {
        if outputs.entries[i].1.value == 0 {
            assert(outputs@[i as int].1.value == 0);
            let ghost c = choose|j: int| 0 <= j < outputs@.len() && #[trigger] outputs@[j].1.value == 0;
            assert(outputs@[c].1.value == 0);
            return Some(i);
        }
        i = i + 1;
    }
    None
}

/// The output that receives the remaining funds, and what it receives.
pub fn get_remaining_funds(state: &State) -> (r: Result<Option<(usize, u64)>, Error>)
    requires
        state.wf(),
    ensures
        r == remaining_funds(*state),
{
    match find_zero_output(&state.outputs) {
        None => Ok(None),
        Some(p) => {
            let input_funds = sum_inputs(&state.inputs);
            let fixed = sum_outputs(&state.outputs);
            let n: usize = state.outputs.entries.len();
            assert(fixed <= 0xFFFF_FFFF_FFFF_FFFFu128 * 0xFFFF_FFFF_FFFF_FFFFu128) by (nonlinear_arith)
                requires
                    fixed <= n * 0xFFFF_FFFF_FFFF_FFFFu128,
                    n <= 0xFFFF_FFFF_FFFF_FFFFu128,
            ;
            let output_funds = fixed + state.fee as u128;
            if input_funds < output_funds {
                return Err(Error::NotEnoughFunds);
            }
            let remaining = input_funds - output_funds;
            if remaining > u64::MAX as u128 {
                return Err(Error::ValueOverflow);
            }
            Ok(Some((state.outputs.entries[p].0, remaining as u64)))
        },
    }
}

} // verus!
