use vstd::prelude::*;
use crate::crypto::{sha256, sha256_of};
use crate::error::Error;
use crate::key::{insert_all_passive, with_all_passive};
use crate::secrets::{contains_id, copy_bytes, holds_with_status, index_of, toggled, with_status, without};
use crate::state::State;

verus! {

/// The hash images of the preimages, each paired with its preimage.
pub open spec fn image_pairs(preimages: Seq<Vec<u8>>) -> Seq<(Seq<u8>, Seq<u8>)> {
    preimages.map_values(|p: Vec<u8>| (sha256_of(p@), p@))
}

/// Adds a passive (pre)image pair for each preimage; its image is the SHA-256
/// digest of the preimage.
pub fn generate_images(state: &mut State, preimages: Vec<Vec<u8>>) -> (r: Result<(), Error>)
    requires
        old(state).wf(),
    ensures
        final(state).wf(),
        r is Ok,
        *final(state) == (State { images: final(state).images, ..*old(state) }),
        final(state).images@ == with_all_passive(old(state).images@, image_pairs(preimages@)),
{
    let mut pairs: Vec<(Vec<u8>, Vec<u8>)> = Vec::new();
    let mut i: usize = 0;
    while i < preimages.len()
        invariant
            i <= preimages@.len(),
            pairs@.len() == i,
            forall|j: int| 0 <= j < i ==> (#[trigger] pairs@[j]).0@ == sha256_of(preimages@[j]@) && pairs@[j].1@ == preimages@[j]@,
        decreases preimages@.len() - i,
    {
        let image = sha256(&preimages[i]);
        pairs.push((image, copy_bytes(&preimages[i])));
        i = i + 1;
    }
    assert(pairs@.map_values(|p: (Vec<u8>, Vec<u8>)| (p.0@, p.1@)) =~= image_pairs(preimages@));
    insert_all_passive(&mut state.images, pairs);
    Ok(())
}

/// Makes a passive (pre)image pair active.
pub fn enable_image(state: &mut State, image: &Vec<u8>) -> (r: Result<(), Error>)
    requires
        old(state).wf(),
    ensures
        final(state).wf(),
        *final(state) == (State { images: final(state).images, ..*old(state) }),
        r is Ok <==> holds_with_status(old(state).images@, image@, false),
        r is Ok ==> final(state).images@ == with_status(old(state).images@, image@, true),
        r matches Err(e) ==> e == Error::UnknownImage && *final(state) == *old(state),
{
    if state.images.set_status(image, true) {
        Ok(())
    } else {
        Err(Error::UnknownImage)
    }
}

/// Makes an active (pre)image pair passive.
pub fn disable_image(state: &mut State, image: &Vec<u8>) -> (r: Result<(), Error>)
    requires
        old(state).wf(),
    ensures
        final(state).wf(),
        *final(state) == (State { images: final(state).images, ..*old(state) }),
        r is Ok <==> holds_with_status(old(state).images@, image@, true),
        r is Ok ==> final(state).images@ == with_status(old(state).images@, image@, false),
        r matches Err(e) ==> e == Error::UnknownImage && *final(state) == *old(state),
{
    if state.images.set_status(image, false) {
        Ok(())
    } else {
        Err(Error::UnknownImage)
    }
}

/// Moves a (pre)image pair to the other partition.
pub fn toggle_image(state: &mut State, image: &Vec<u8>) -> (r: Result<(), Error>)
    requires
        old(state).wf(),
    ensures
        final(state).wf(),
        *final(state) == (State { images: final(state).images, ..*old(state) }),
        r is Ok <==> contains_id(old(state).images@, image@),
        r is Ok ==> final(state).images@ == toggled(old(state).images@, image@),
        r matches Err(e) ==> e == Error::UnknownImage && *final(state) == *old(state),
{
    if state.images.toggle(image) {
        Ok(())
    } else {
        Err(Error::UnknownImage)
    }
}

/// Deletes a (pre)image pair from either partition and hands back the preimage.
pub fn delete_image(state: &mut State, image: &Vec<u8>) -> (r: Result<Vec<u8>, Error>)
    requires
        old(state).wf(),
    ensures
        final(state).wf(),
        *final(state) == (State { images: final(state).images, ..*old(state) }),
        r is Ok <==> contains_id(old(state).images@, image@),
        r matches Ok(p) ==> final(state).images@ == without(old(state).images@, image@)
            && p@ == old(state).images@[index_of(old(state).images@, image@)].1,
        r matches Err(e) ==> e == Error::UnknownImage && *final(state) == *old(state),
{
    match state.images.remove(image) {
        Some(p) => Ok(p),
        None => Err(Error::UnknownImage),
    }
}

} // verus!
