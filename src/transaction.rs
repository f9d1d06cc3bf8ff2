use vstd::prelude::*;
use crate::address::{push_coin, with_coin};
use crate::error::Error;
use crate::input::same_coin;
use crate::secrets::copy_bytes;
use crate::slots::{Slots, to_map};
use crate::state::{same_outpoint, unique_outpoints, utxo_models, Input, InputModel, OutputModel, State, Utxo, UtxoModel};
use crate::timelock::{LOCK_TIME_THRESHOLD, SEQUENCE_MAX};
use crate::util::{get_remaining_funds, remaining_funds};

verus! {

/// Sets the transaction's absolute lock time to block height `height`.
pub fn update_locktime(state: &mut State, height: u32) -> (r: Result<(), Error>)
    requires
        old(state).wf(),
    ensures
        final(state).wf(),
        r is Ok <==> height < LOCK_TIME_THRESHOLD,
        r matches Err(e) ==> e == Error::InvalidHeight && *final(state) == *old(state),
        r is Ok ==> *final(state) == (State { locktime: height, ..*old(state) }),
{
    if height >= LOCK_TIME_THRESHOLD {
        return Err(Error::InvalidHeight);
    }
    state.locktime = height;
    Ok(())
}

/// Sets the transaction fee.
pub fn update_fee(state: &mut State, value: u64) -> (r: Result<(), Error>)
    requires
        old(state).wf(),
    ensures
        final(state).wf(),
        r is Ok,
        *final(state) == (State { fee: value, ..*old(state) }),
{
    state.fee = value;
    Ok(())
}

/// Some input spends the coin `u`.
pub open spec fn consumed(inputs: Seq<(usize, InputModel)>, u: UtxoModel) -> bool {
    exists|i: int| 0 <= i < inputs.len() && same_outpoint(#[trigger] inputs[i].1.utxo, u)
}

/// The coins that no input spends, in their order.
pub open spec fn unspent(utxos: Seq<UtxoModel>, inputs: Seq<(usize, InputModel)>) -> Seq<UtxoModel>
    decreases utxos.len(),
{
    if utxos.len() == 0 {
        utxos
    } else if consumed(inputs, utxos.last()) {
        unspent(utxos.drop_last(), inputs)
    } else {
        unspent(utxos.drop_last(), inputs).push(utxos.last())
    }
}

/// Every coin that no input spends comes from the list, and the list's outpoints
/// stay unique.
pub proof fn lemma_unspent_unique(utxos: Seq<UtxoModel>, inputs: Seq<(usize, InputModel)>)
    requires
        unique_outpoints(utxos),
    ensures
        unique_outpoints(unspent(utxos, inputs)),
        forall|i: int| 0 <= i < unspent(utxos, inputs).len() ==> exists|j: int| 0 <= j < utxos.len() && #[trigger] unspent(utxos, inputs)[i] == utxos[j],
    decreases utxos.len(),
{
    if utxos.len() > 0 {
        let rest = utxos.drop_last();
        assert(unique_outpoints(rest)) by {
            assert forall|i: int, j: int| 0 <= i < j < rest.len() implies !same_outpoint(#[trigger] rest[i], #[trigger] rest[j]) by {
                assert(rest[i] == utxos[i] && rest[j] == utxos[j]);
            }
        }
        lemma_unspent_unique(rest, inputs);
        let r = unspent(rest, inputs);
        if !consumed(inputs, utxos.last()) {
            let w = r.push(utxos.last());
            assert(unspent(utxos, inputs) == w);
            assert forall|i: int| 0 <= i < w.len() implies exists|j: int| 0 <= j < utxos.len() && #[trigger] w[i] == utxos[j] by {
                if i < r.len() {
                    let j = choose|j: int| 0 <= j < rest.len() && #[trigger] r[i] == rest[j];
                    assert(w[i] == utxos[j]);
                } else {
                    assert(w[i] == utxos[utxos.len() - 1]);
                }
            }
            assert forall|i: int, j: int| 0 <= i < j < w.len() implies !same_outpoint(#[trigger] w[i], #[trigger] w[j]) by {
                if j == r.len() {
                    let k = choose|k: int| 0 <= k < rest.len() && #[trigger] r[i] == rest[k];
                    assert(rest[k] == utxos[k]);
                    assert(!same_outpoint(utxos[k], utxos[utxos.len() - 1]));
                } else {
                    assert(w[i] == r[i] && w[j] == r[j]);
                }
            }
        } else {
            assert forall|i: int| 0 <= i < r.len() implies exists|j: int| 0 <= j < utxos.len() && #[trigger] r[i] == utxos[j] by {
                let j = choose|j: int| 0 <= j < rest.len() && #[trigger] r[i] == rest[j];
                assert(r[i] == utxos[j]);
            }
        }
    }
}

/// The value that an output carries once the remaining funds are assigned.
pub open spec fn resolved_value(index: usize, o: OutputModel, remaining: Option<(usize, u64)>) -> u64 {
    match remaining {
        Some((k, v)) => if k == index { v } else { o.value },
        None => o.value,
    }
}

/// The coins that the outputs become in transaction `txid`, in index order.
pub open spec fn output_coins(
    outputs: Seq<(usize, OutputModel)>,
    txid: Seq<u8>,
    remaining: Option<(usize, u64)>,
) -> Seq<UtxoModel> {
    outputs.map_values(|e: (usize, OutputModel)| UtxoModel {
        descriptor: e.1.descriptor,
        txid,
        vout: #[verifier::truncate] (e.0 as u32),
        value: resolved_value(e.0, e.1, remaining),
    })
}

/// The list with each new coin added in turn, skipping coins already known.
pub open spec fn with_coins(utxos: Seq<UtxoModel>, coins: Seq<UtxoModel>) -> Seq<UtxoModel>
    decreases coins.len(),
{
    if coins.len() == 0 {
        utxos
    } else {
        with_coin(with_coins(utxos, coins.drop_last()), coins.last())
    }
}

/// The coins that no input spends, copied.
fn unspent_coins(utxos: &Vec<Utxo>, inputs: &Slots<Input>) -> (r: Vec<Utxo>)
    ensures
        utxo_models(r@) == unspent(utxo_models(utxos@), inputs@),
{
    let ghost all = utxo_models(utxos@);
    let mut kept: Vec<Utxo> = Vec::new();
    let mut i: usize = 0;
    while i < utxos.len()
        invariant
            i <= utxos@.len(),
            all == utxo_models(utxos@),
            utxo_models(kept@) == unspent(all.subrange(0, i as int), inputs@),
        decreases utxos@.len() - i,
    {
        let ghost pre = all.subrange(0, i as int + 1);
        assert(pre.drop_last() =~= all.subrange(0, i as int));
        assert(pre.last() == utxos@[i as int]@);
        let mut spent = false;
        let mut j: usize = 0;
        while j < inputs.entries.len()
            invariant
                j <= inputs@.len(),
                inputs@.len() == inputs.entries@.len(),
                i < utxos@.len(),
                spent <==> exists|t: int| 0 <= t < j && same_outpoint(#[trigger] inputs@[t].1.utxo, utxos@[i as int]@),
            decreases inputs.entries@.len() - j,
        {
            if same_coin(&inputs.entries[j].1.utxo, &utxos[i]) {
                assert(same_outpoint(inputs@[j as int].1.utxo, utxos@[i as int]@));
                spent = true;
            }
            j = j + 1;
        }
        if !spent {
            let ghost before = utxo_models(kept@);
            kept.push(utxos[i].copy());
            assert(utxo_models(kept@) =~= before.push(utxos@[i as int]@));
        }
        i = i + 1;
    }
    assert(all.subrange(0, i as int) =~= all);
    kept
}

/// Records that the staged transaction was broadcast as `txid`: the coins that
/// the inputs spend leave the coin list; each output, in index order, becomes the
/// coin at (`txid`, its index), with the remaining funds assigned to the output of
/// value zero; the first of those coins is staged as input 0 with relative lock
/// time disabled; every other staged input and output is cleared.
pub fn finalize_transaction(state: &mut State, txid: Vec<u8>) -> (r: Result<(), Error>)
    requires
        old(state).wf(),
    ensures
        final(state).wf(),
        r is Ok <==> remaining_funds(*old(state)) is Ok,
        r matches Err(e) ==> remaining_funds(*old(state)) == Err::<Option<(usize, u64)>, Error>(e)
            && *final(state) == *old(state),
        r is Ok ==> utxo_models(final(state).utxos@) == with_coins(
            unspent(utxo_models(old(state).utxos@), old(state).inputs@),
            output_coins(old(state).outputs@, txid@, remaining_funds(*old(state))->Ok_0),
        ),
        r is Ok && old(state).outputs@.len() > 0 ==> final(state).inputs@ == seq![(0usize, InputModel {
            utxo: output_coins(old(state).outputs@, txid@, remaining_funds(*old(state))->Ok_0)[0],
            sequence: SEQUENCE_MAX,
        })],
        r is Ok && old(state).outputs@.len() == 0 ==> final(state).inputs@.len() == 0,
        r is Ok ==> final(state).outputs@.len() == 0,
        r is Ok ==> final(state).keys == old(state).keys && final(state).images == old(state).images
            && final(state).inbound_address == old(state).inbound_address
            && final(state).locktime == old(state).locktime && final(state).fee == old(state).fee,
{
    let remaining = get_remaining_funds(state)?;
    let ghost coins = output_coins(state.outputs@, txid@, remaining);
    let mut utxos = unspent_coins(&state.utxos, &state.inputs);
    let ghost base = utxo_models(utxos@);
    proof {
        lemma_unspent_unique(utxo_models(state.utxos@), state.inputs@);
    }
    let mut first: Option<Utxo> = None;
    let mut i: usize = 0;
    while i < state.outputs.entries.len()
        invariant
            i <= state.outputs@.len(),
            state.outputs@.len() == state.outputs.entries@.len(),
            *state == *old(state),
            coins == output_coins(state.outputs@, txid@, remaining),
            utxo_models(utxos@) == with_coins(base, coins.subrange(0, i as int)),
            unique_outpoints(utxo_models(utxos@)),
            i == 0 ==> first is None,
            i > 0 ==> (first matches Some(f) && f@ == coins[0]),
        decreases state.outputs.entries@.len() - i,
    {
        let index = state.outputs.entries[i].0;
        let output = &state.outputs.entries[i].1;
        let value = match remaining {
            Some((k, v)) => if k == index { v } else { output.value },
            None => output.value,
        };
        let coin = Utxo { descriptor: output.descriptor.copy(), txid: copy_bytes(&txid), vout: #[verifier::truncate] (index as u32), value };
        assert(coin@ == coins[i as int]);
        if i == 0 {
            first = Some(coin.copy());
        }
        let ghost pre = coins.subrange(0, i as int + 1);
        assert(pre.drop_last() =~= coins.subrange(0, i as int));
        push_coin(&mut utxos, coin);
        i = i + 1;
    }
    assert(coins.subrange(0, i as int) =~= coins);
    state.utxos = utxos;
    state.outputs = Slots::new();
    state.inputs = Slots::new();
    match first {
        Some(f) => {
            let ghost fm = f@;
            state.inputs.entries.push((0usize, Input { utxo: f, sequence: SEQUENCE_MAX }));
            assert(state.inputs@ =~= seq![(0usize, InputModel { utxo: fm, sequence: SEQUENCE_MAX })]);
        },
        None => {},
    }
    Ok(())
}

} // verus!
