use vstd::prelude::*;
use crate::crypto::taproot_address_of;
use crate::error::Error;
use crate::input::same_coin;
use crate::secrets::copy_bytes;
use crate::state::{same_outpoint, unique_outpoints, utxo_models, Descriptor, DescriptorModel, State, Utxo, UtxoModel};

verus! {

/// Some coin of the list has the outpoint of `u`.
pub open spec fn known_outpoint(utxos: Seq<UtxoModel>, u: UtxoModel) -> bool {
    exists|i: int| 0 <= i < utxos.len() && same_outpoint(#[trigger] utxos[i], u)
}

/// The list with `u` added, unless a coin with its outpoint is there already.
pub open spec fn with_coin(utxos: Seq<UtxoModel>, u: UtxoModel) -> Seq<UtxoModel> {
    if known_outpoint(utxos, u) {
        utxos
    } else {
        utxos.push(u)
    }
}

/// Adds a coin to the list unless one with its outpoint is there already.
pub(crate) fn push_coin(utxos: &mut Vec<Utxo>, u: Utxo)
    ensures
        utxo_models(final(utxos)@) == with_coin(utxo_models(old(utxos)@), u@),
        unique_outpoints(utxo_models(old(utxos)@)) ==> unique_outpoints(utxo_models(final(utxos)@)),
{
    let ghost v = utxo_models(utxos@);
    let mut i: usize = 0;
    while i < utxos.len()
        invariant
            i <= utxos@.len(),
            v == utxo_models(utxos@),
            forall|j: int| 0 <= j < i ==> !same_outpoint(#[trigger] v[j], u@),
        decreases utxos@.len() - i,
    {
        if same_coin(&utxos[i], &u) {
            assert(same_outpoint(v[i as int], u@));
            return;
        }
        i = i + 1;
    }
    let ghost um = u@;
    utxos.push(u);
    assert(utxo_models(utxos@) =~= v.push(um));
    assert(!known_outpoint(v, um));
}

/// Stages `descriptor` as the inbound address to be funded, and hands back its address.
pub fn set_address(state: &mut State, descriptor: Descriptor) -> (r: Result<String, Error>)
    requires
        old(state).wf(),
    ensures
        final(state).wf(),
        r is Ok <==> taproot_address_of(descriptor@.text) is Some,
        r matches Ok(a) ==> taproot_address_of(descriptor@.text) == Some(a@),
        r matches Err(e) ==> e == Error::Policy && *final(state) == *old(state),
        r is Ok ==> *final(state) == (State { inbound_address: Some(descriptor), ..*old(state) }),
{
    let address = descriptor.address()?;
    state.inbound_address = Some(descriptor);
    Ok(address)
}

/// The coin that funds the inbound address `d` in output `vout` of transaction `txid`.
pub open spec fn funding_coin(d: DescriptorModel, txid: Seq<u8>, vout: u32, value: u64) -> UtxoModel {
    UtxoModel { descriptor: d, txid, vout, value }
}

/// Records that the inbound address was funded with `value` in output
/// `output_index` of transaction `txid`: the address becomes a coin (unless the
/// coin is known already) and is no longer staged.
pub fn into_utxo(state: &mut State, txid: Vec<u8>, output_index: u32, value: u64) -> (r: Result<(), Error>)
    requires
        old(state).wf(),
    ensures
        final(state).wf(),
        r is Ok <==> old(state).inbound_address is Some,
        r matches Err(e) ==> e == Error::MissingAddress && *final(state) == *old(state),
        r is Ok ==> *final(state) == (State {
            inbound_address: None,
            utxos: final(state).utxos,
            ..*old(state)
        }),
        r is Ok ==> utxo_models(final(state).utxos@) == with_coin(
            utxo_models(old(state).utxos@),
            funding_coin(old(state).inbound_address->Some_0@, txid@, output_index, value),
        ),
{
    let descriptor = match state.inbound_address.take() {
        Some(d) => d,
        None => return Err(Error::MissingAddress),
    };
    let utxo = Utxo { descriptor, txid: copy_bytes(&txid), vout: output_index, value };
    push_coin(&mut state.utxos, utxo);
    Ok(())
}

/// The address of the coin that the input at `index` spends.
pub fn get_input_address(state: &State, index: usize) -> (r: Result<String, Error>)
    requires
        state.wf(),
    ensures
        !state.inputs.map().contains_key(index) ==> r == Err::<String, Error>(Error::MissingInput),
        state.inputs.map().contains_key(index) ==> {
            let text = state.inputs.map()[index].utxo.descriptor.text;
            &&& r is Ok <==> taproot_address_of(text) is Some
            &&& r matches Ok(a) ==> taproot_address_of(text) == Some(a@)
            &&& r matches Err(e) ==> e == Error::Policy
        },
{
    match state.inputs.get(index) {
        Some(input) => input.utxo.descriptor.address(),
        None => Err(Error::MissingInput),
    }
}

} // verus!
