use vstd::prelude::*;
use crate::error::Error;
use crate::slots::{has_index, lemma_map_at, pos_of, sorted, to_map, Slots};
use crate::state::{at_most_one_zero, Descriptor, Output, OutputModel, State};

verus! {

/// At most one index of the map holds an output with value zero.
pub open spec fn one_zero_in_map(m: Map<usize, OutputModel>) -> bool {
    forall|a: usize, b: usize|
        m.contains_key(a) && m.contains_key(b) && #[trigger] m[a].value == 0 && #[trigger] m[b].value == 0 ==> a == b
}

/// Some index other than `index` holds an output with value zero.
pub open spec fn zero_elsewhere(m: Map<usize, OutputModel>, index: usize) -> bool {
    exists|k: usize| m.contains_key(k) && k != index && #[trigger] m[k].value == 0
}

/// On a sorted list, the two ways of saying "at most one zero output" agree.
pub proof fn lemma_one_zero_map(v: Seq<(usize, OutputModel)>)
    requires
        sorted(v),
    ensures
        at_most_one_zero(v) <==> one_zero_in_map(to_map(v)),
{
    let m = to_map(v);
    if at_most_one_zero(v) {
        assert forall|a: usize, b: usize|
            m.contains_key(a) && m.contains_key(b) && #[trigger] m[a].value == 0 && #[trigger] m[b].value == 0 implies a == b by {
            let pa = pos_of(v, a);
            let pb = pos_of(v, b);
            assert(v[pa].0 == a && v[pb].0 == b);
            assert(v[pa].1.value == 0 && v[pb].1.value == 0);
        }
    }
    if one_zero_in_map(m) {
        assert forall|i: int, j: int|
            0 <= i < v.len() && 0 <= j < v.len() && #[trigger] v[i].1.value == 0 && #[trigger] v[j].1.value == 0 implies i == j by {
            lemma_map_at(v, i);
            lemma_map_at(v, j);
            assert(m[v[i].0].value == 0);
            assert(m[v[j].0].value == 0);
            if i < j {
                assert(v[i].0 < v[j].0);
            } else if j < i {
                assert(v[j].0 < v[i].0);
            }
        }
    }
}

/// Whether an index other than `index` holds an output with value zero.
fn find_zero_elsewhere(outputs: &Slots<Output>, index: usize) -> (r: bool)
    requires
        outputs.wf(),
    ensures
        r == zero_elsewhere(outputs.map(), index),
{
    let mut i: usize = 0;
    while i < outputs.entries.len()
        invariant
            outputs.wf(),
            i <= outputs@.len(),
            outputs@.len() == outputs.entries@.len(),
            forall|j: int| 0 <= j < i ==> !(#[trigger] outputs@[j].1.value == 0 && outputs@[j].0 != index),
        decreases outputs.entries@.len() - i,
    {
        if outputs.entries[i].1.value == 0 && outputs.entries[i].0 != index {
            proof {
                lemma_map_at(outputs@, i as int);
                let k = outputs@[i as int].0;
                assert(outputs.map().contains_key(k) && k != index && outputs.map()[k].value == 0);
            }
            return true;
        }
        i = i + 1;
    }
    assert forall|k: usize| outputs.map().contains_key(k) && k != index implies #[trigger] outputs.map()[k].value != 0 by {
        let p = pos_of(outputs@, k);
        assert(outputs@[p].0 == k);
    }
    false
}

/// Stages an output of `value` to `descriptor` at `output_index`, handing back the
/// output that was there. Value zero marks the output that receives the remaining
/// funds; a second such output is refused.
pub fn add_output(state: &mut State, output_index: usize, descriptor: Descriptor, value: u64) -> (r: Result<Option<Output>, Error>)
    requires
        old(state).wf(),
    ensures
        final(state).wf(),
        r is Err <==> value == 0 && zero_elsewhere(old(state).outputs.map(), output_index),
        r matches Err(e) ==> e == Error::OneZeroOutput && *final(state) == *old(state),
        r is Ok ==> *final(state) == (State { outputs: final(state).outputs, ..*old(state) }),
        r is Ok ==> final(state).outputs.map() == old(state).outputs.map().insert(
            output_index,
            OutputModel { value, descriptor: descriptor@ },
        ),
        r matches Ok(prev) ==> (prev is Some <==> old(state).outputs.map().contains_key(output_index)),
        r matches Ok(Some(o)) ==> o@ == old(state).outputs.map()[output_index],
{
    if value == 0 && find_zero_elsewhere(&state.outputs, output_index) {
        return Err(Error::OneZeroOutput);
    }
    let ghost m0 = state.outputs.map();
    let ghost x = OutputModel { value, descriptor: descriptor@ };
    let prev = state.outputs.insert(output_index, Output { value, descriptor });
    proof {
        lemma_one_zero_map(old(state).outputs@);
        lemma_one_zero_map(state.outputs@);
        let m1 = state.outputs.map();
        assert(m1 == m0.insert(output_index, x));
        assert forall|a: usize, b: usize|
            m1.contains_key(a) && m1.contains_key(b) && #[trigger] m1[a].value == 0 && #[trigger] m1[b].value == 0 implies a == b by {
            if a != output_index && b != output_index {
                assert(m0[a].value == 0 && m0[b].value == 0);
            } else if a == output_index && b != output_index {
                assert(m0.contains_key(b) && m0[b].value == 0);
            } else if b == output_index && a != output_index {
                assert(m0.contains_key(a) && m0[a].value == 0);
            }
        }
    }
    Ok(prev)
}

/// Removes the output at `output_index` and hands it back.
pub fn delete_output(state: &mut State, output_index: usize) -> (r: Result<Output, Error>)
    requires
        old(state).wf(),
    ensures
        final(state).wf(),
        r is Ok <==> old(state).outputs.map().contains_key(output_index),
        r matches Err(e) ==> e == Error::MissingOutput && *final(state) == *old(state),
        r is Ok ==> *final(state) == (State { outputs: final(state).outputs, ..*old(state) }),
        r is Ok ==> final(state).outputs.map() == old(state).outputs.map().remove(output_index),
        r matches Ok(o) ==> o@ == old(state).outputs.map()[output_index],
{
    let ghost m0 = state.outputs.map();
    match state.outputs.remove(output_index) {
        Some(o) => {
            proof {
                lemma_one_zero_map(old(state).outputs@);
                lemma_one_zero_map(state.outputs@);
                let m1 = state.outputs.map();
                assert forall|a: usize, b: usize|
                    m1.contains_key(a) && m1.contains_key(b) && #[trigger] m1[a].value == 0 && #[trigger] m1[b].value == 0 implies a == b by {
                    assert(m0[a].value == 0 && m0[b].value == 0);
                }
            }
            Ok(o)
        },
        None => Err(Error::MissingOutput),
    }
}

} // verus!
