use vstd::prelude::*;
use crate::error::Error;
use crate::state::{State, Utxo};

verus! {

/// Removes the coin at `utxo_index` and hands it back.
pub fn delete_utxo(state: &mut State, utxo_index: usize) -> (r: Result<Utxo, Error>)
    requires
        old(state).wf(),
    ensures
        final(state).wf(),
        r is Ok <==> utxo_index < old(state).utxos@.len(),
        r matches Err(e) ==> e == Error::MissingUtxo && *final(state) == *old(state),
        r is Ok ==> *final(state) == (State { utxos: final(state).utxos, ..*old(state) }),
        r is Ok ==> final(state).utxos@ == old(state).utxos@.remove(utxo_index as int),
        r matches Ok(u) ==> u == old(state).utxos@[utxo_index as int],
{
    if state.utxos.len() <= utxo_index {
        return Err(Error::MissingUtxo);
    }
    proof {
        crate::state::lemma_unique_remove(state.utxos@, utxo_index as int);
    }
    let old = state.utxos.remove(utxo_index);
    Ok(old)
}

} // verus!
