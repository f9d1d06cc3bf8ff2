use vstd::prelude::*;
use crate::error::Error;
use crate::secrets::bytes_eq;
use crate::slots::{lemma_map_at, pos_of, Slots};
use crate::state::{same_outpoint, Input, InputModel, State, Utxo, UtxoModel};
use crate::timelock::{sequence_from_height, SEQUENCE_MAX};

verus! {

/// Some input slot other than `index` already spends the coin `u`.
pub open spec fn bound_elsewhere(m: Map<usize, InputModel>, index: usize, u: UtxoModel) -> bool {
    exists|k: usize| m.contains_key(k) && k != index && same_outpoint(#[trigger] m[k].utxo, u)
}

/// Whether two coins have the same outpoint.
pub fn same_coin(a: &Utxo, b: &Utxo) -> (r: bool)
    ensures
        r == same_outpoint(a@, b@),
{
    a.vout == b.vout && bytes_eq(&a.txid, &b.txid)
}

/// Whether a slot other than `index` spends the coin `u`.
fn find_bound_elsewhere(inputs: &Slots<Input>, index: usize, u: &Utxo) -> (r: bool)
    requires
        inputs.wf(),
    ensures
        r == bound_elsewhere(inputs.map(), index, u@),
{
    let mut i: usize = 0;
    while i < inputs.entries.len()
        invariant
            inputs.wf(),
            i <= inputs@.len(),
            inputs@.len() == inputs.entries@.len(),
            forall|j: int| 0 <= j < i ==> !(#[trigger] inputs@[j].0 != index && same_outpoint(inputs@[j].1.utxo, u@)),
        decreases inputs.entries@.len() - i,
    {
        if inputs.entries[i].0 != index && same_coin(&inputs.entries[i].1.utxo, u) {
            proof {
                lemma_map_at(inputs@, i as int);
                let k = inputs@[i as int].0;
                assert(inputs.map().contains_key(k) && k != index && same_outpoint(inputs.map()[k].utxo, u@));
            }
            return true;
        }
        i = i + 1;
    }
    assert forall|k: usize| inputs.map().contains_key(k) && k != index implies !same_outpoint(#[trigger] inputs.map()[k].utxo, u@) by {
        let p = pos_of(inputs@, k);
        assert(inputs@[p].0 == k);
    }
    false
}

/// Stages an input at `input_index` that spends the coin at `utxo_index`, with
/// relative lock time disabled, and hands back the input that was there. A coin
/// already spent by another slot is refused.
pub fn add_from_utxo(state: &mut State, input_index: usize, utxo_index: usize) -> (r: Result<Option<Input>, Error>)
    requires
        old(state).wf(),
    ensures
        final(state).wf(),
        utxo_index >= old(state).utxos@.len() ==> r == Err::<Option<Input>, Error>(Error::MissingUtxo),
        utxo_index < old(state).utxos@.len() ==> (r is Err <==> bound_elsewhere(
            old(state).inputs.map(),
            input_index,
            old(state).utxos@[utxo_index as int]@,
        )),
        r matches Err(e) ==> (e == Error::MissingUtxo || e == Error::DoubleSpend) && *final(state) == *old(state),
        r is Ok ==> *final(state) == (State { inputs: final(state).inputs, ..*old(state) }),
        r is Ok ==> final(state).inputs.map() == old(state).inputs.map().insert(
            input_index,
            InputModel { utxo: old(state).utxos@[utxo_index as int]@, sequence: SEQUENCE_MAX },
        ),
        r matches Ok(prev) ==> (prev is Some <==> old(state).inputs.map().contains_key(input_index)),
        r matches Ok(Some(i)) ==> i@ == old(state).inputs.map()[input_index],
{
    if utxo_index >= state.utxos.len() {
        return Err(Error::MissingUtxo);
    }
    let utxo = state.utxos[utxo_index].copy();
    if find_bound_elsewhere(&state.inputs, input_index, &utxo) {
        return Err(Error::DoubleSpend);
    }
    let prev = state.inputs.insert(input_index, Input { utxo, sequence: SEQUENCE_MAX });
    Ok(prev)
}

/// Removes the input at `input_index` and hands it back.
pub fn delete_input(state: &mut State, input_index: usize) -> (r: Result<Input, Error>)
    requires
        old(state).wf(),
    ensures
        final(state).wf(),
        r is Ok <==> old(state).inputs.map().contains_key(input_index),
        r matches Err(e) ==> e == Error::MissingInput && *final(state) == *old(state),
        r is Ok ==> *final(state) == (State { inputs: final(state).inputs, ..*old(state) }),
        r is Ok ==> final(state).inputs.map() == old(state).inputs.map().remove(input_index),
        r matches Ok(i) ==> i@ == old(state).inputs.map()[input_index],
{
    match state.inputs.remove(input_index) {
        Some(i) => Ok(i),
        None => Err(Error::MissingInput),
    }
}

/// Sets the sequence value of the input at `input_index`.
fn set_sequence(state: &mut State, input_index: usize, sequence: u32) -> (r: Result<(), Error>)
    requires
        old(state).wf(),
    ensures
        final(state).wf(),
        r is Ok <==> old(state).inputs.map().contains_key(input_index),
        r matches Err(e) ==> e == Error::MissingInput && *final(state) == *old(state),
        r is Ok ==> *final(state) == (State { inputs: final(state).inputs, ..*old(state) }),
        r is Ok ==> final(state).inputs.map() == old(state).inputs.map().insert(
            input_index,
            InputModel { utxo: old(state).inputs.map()[input_index].utxo, sequence },
        ),
{
    let ghost m0 = state.inputs.map();
    match state.inputs.remove(input_index) {
        Some(input) => {
            let ghost m1 = state.inputs.map();
            let ghost x = InputModel { utxo: input.utxo@, sequence };
            state.inputs.insert(input_index, Input { utxo: input.utxo, sequence });
            assert(m1.insert(input_index, x) =~= m0.insert(input_index, x));
            Ok(())
        },
        None => Err(Error::MissingInput),
    }
}

/// Gives the input at `input_index` a relative lock time of `relative_height` blocks.
pub fn update_sequence_height(state: &mut State, input_index: usize, relative_height: u16) -> (r: Result<(), Error>)
    requires
        old(state).wf(),
    ensures
        final(state).wf(),
        r is Ok <==> old(state).inputs.map().contains_key(input_index),
        r matches Err(e) ==> e == Error::MissingInput && *final(state) == *old(state),
        r is Ok ==> *final(state) == (State { inputs: final(state).inputs, ..*old(state) }),
        r is Ok ==> final(state).inputs.map() == old(state).inputs.map().insert(
            input_index,
            InputModel { utxo: old(state).inputs.map()[input_index].utxo, sequence: relative_height as u32 },
        ),
{
    let sequence = sequence_from_height(relative_height);
    set_sequence(state, input_index, sequence)
}

/// Disables the relative lock time of the input at `input_index`.
pub fn set_sequence_max(state: &mut State, input_index: usize) -> (r: Result<(), Error>)
    requires
        old(state).wf(),
    ensures
        final(state).wf(),
        r is Ok <==> old(state).inputs.map().contains_key(input_index),
        r matches Err(e) ==> e == Error::MissingInput && *final(state) == *old(state),
        r is Ok ==> *final(state) == (State { inputs: final(state).inputs, ..*old(state) }),
        r is Ok ==> final(state).inputs.map() == old(state).inputs.map().insert(
            input_index,
            InputModel { utxo: old(state).inputs.map()[input_index].utxo, sequence: SEQUENCE_MAX },
        ),
{
    set_sequence(state, input_index, SEQUENCE_MAX)
}

} // verus!
