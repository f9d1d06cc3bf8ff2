use vstd::prelude::*;
use crate::crypto::{compressed_key_of, compressed_public_key, negate_secret, negated_secret_of};
use crate::error::Error;
use crate::secrets::{contains_id, holds_with_status, index_of, toggled, with_passive, with_status, without, EntryView};
use crate::state::State;

verus! {

/// The x-only public key and the secret of a generated key pair, normalised so
/// that the public key has an even y-coordinate (prefix 2 in compressed form):
/// the secret is negated where the key is odd (prefix 3). None where the bytes
/// are no secret key.
pub open spec fn normalized_key(secret: Seq<u8>) -> Option<(Seq<u8>, Seq<u8>)> {
    match compressed_key_of(secret) {
        None => None,
        Some(pk) => if pk[0] == 2u8 {
            Some((pk.subrange(1, 33), secret))
        } else if pk[0] == 3u8 {
            match negated_secret_of(secret) {
                None => None,
                Some(n) => match compressed_key_of(n) {
                    Some(npk) => if npk[0] == 2u8 {
                        Some((npk.subrange(1, 33), n))
                    } else {
                        None
                    },
                    None => None,
                },
            }
        } else {
            None
        },
    }
}

/// A normalised key pair has an even public key, and its identity is that key's
/// x-coordinate.
pub proof fn lemma_normalized_even(secret: Seq<u8>)
    ensures
        normalized_key(secret) matches Some((id, sk)) ==> compressed_key_of(sk) matches Some(pk) && pk[0] == 2u8
            && id == pk.subrange(1, 33),
{
}

/// The entries after adding each pair, in order, as a passive secret.
pub open spec fn with_all_passive(v: Seq<EntryView>, pairs: Seq<(Seq<u8>, Seq<u8>)>) -> Seq<EntryView>
    decreases pairs.len(),
{
    if pairs.len() == 0 {
        v
    } else {
        with_passive(with_all_passive(v, pairs.drop_last()), pairs.last().0, pairs.last().1)
    }
}

/// Every secret is a valid secret key.
pub open spec fn all_normalizable(secrets: Seq<Vec<u8>>) -> bool {
    forall|i: int| 0 <= i < secrets.len() ==> (#[trigger] normalized_key(secrets[i]@)) is Some
}

/// The normalised key pairs of the secrets.
pub open spec fn normalized_keys(secrets: Seq<Vec<u8>>) -> Seq<(Seq<u8>, Seq<u8>)> {
    secrets.map_values(|s: Vec<u8>| normalized_key(s@)->Some_0)
}

/// Adds a secret to a store as passive, for each secret in turn.
pub(crate) fn insert_all_passive(store: &mut crate::secrets::SecretStore, pairs: Vec<(Vec<u8>, Vec<u8>)>)
    requires
        old(store).wf(),
    ensures
        final(store).wf(),
        final(store)@ == with_all_passive(old(store)@, pairs@.map_values(|p: (Vec<u8>, Vec<u8>)| (p.0@, p.1@))),
{
    let ghost start = store@;
    let ghost all = pairs@.map_values(|p: (Vec<u8>, Vec<u8>)| (p.0@, p.1@));
    let mut i: usize = 0;
    while i < pairs.len()
        invariant
            store.wf(),
            i <= pairs@.len(),
            all == pairs@.map_values(|p: (Vec<u8>, Vec<u8>)| (p.0@, p.1@)),
            store@ == with_all_passive(start, all.subrange(0, i as int)),
        decreases pairs@.len() - i,
    {
        let id = crate::secrets::copy_bytes(&pairs[i].0);
        let secret = crate::secrets::copy_bytes(&pairs[i].1);
        store.insert_passive(id, secret);
        proof {
            let pre = all.subrange(0, i as int + 1);
            assert(pre.drop_last() =~= all.subrange(0, i as int));
        }
        i = i + 1;
    }
    assert(all.subrange(0, i as int) =~= all);
}

/// Adds a passive key pair for each secret, normalised to an even public key.
/// A secret that is no valid secret key fails the whole call, changing nothing.
pub fn generate_keys(state: &mut State, secrets: Vec<Vec<u8>>) -> (r: Result<(), Error>)
    requires
        old(state).wf(),
    ensures
        final(state).wf(),
        r is Ok <==> all_normalizable(secrets@),
        r is Ok ==> *final(state) == (State { keys: final(state).keys, ..*old(state) }),
        r is Ok ==> final(state).keys@ == with_all_passive(old(state).keys@, normalized_keys(secrets@)),
        r matches Err(e) ==> e == Error::InvalidSecret && *final(state) == *old(state),
{
    let mut pairs: Vec<(Vec<u8>, Vec<u8>)> = Vec::new();
    let mut i: usize = 0;
    while i < secrets.len()
        invariant
            i <= secrets@.len(),
            pairs@.len() == i,
            state.wf(),
            *state == *old(state),
            forall|j: int| 0 <= j < i ==> (#[trigger] normalized_key(secrets@[j]@)) is Some,
            forall|j: int| 0 <= j < i ==> normalized_key(secrets@[j]@) == Some(((#[trigger] pairs@[j]).0@, pairs@[j].1@)),
        decreases secrets@.len() - i,
    {
        let secret = &secrets[i];
        let pk = match compressed_public_key(secret) {
            Some(pk) => pk,
            None => {
                assert(normalized_key(secrets@[i as int]@) is None);
                return Err(Error::InvalidSecret);
            },
        };
        let pair = if pk[0] == 2u8 {
            (x_only_part(&pk), crate::secrets::copy_bytes(secret))
        } else if pk[0] == 3u8 {
            let negated = match negate_secret(secret) {
                Some(n) => n,
                None => {
                    assert(normalized_key(secrets@[i as int]@) is None);
                    return Err(Error::InvalidSecret);
                },
            };
            let npk = match compressed_public_key(&negated) {
                Some(k) => k,
                None => {
                    assert(normalized_key(secrets@[i as int]@) is None);
                    return Err(Error::InvalidSecret);
                },
            };
            if npk[0] != 2u8 {
                assert(normalized_key(secrets@[i as int]@) is None);
                return Err(Error::InvalidSecret);
            }
            (x_only_part(&npk), negated)
        } else {
            assert(normalized_key(secrets@[i as int]@) is None);
            return Err(Error::InvalidSecret);
        };
        pairs.push(pair);
        i = i + 1;
    }
    assert(pairs@.map_values(|p: (Vec<u8>, Vec<u8>)| (p.0@, p.1@)) =~= normalized_keys(secrets@));
    insert_all_passive(&mut state.keys, pairs);
    Ok(())
}

/// The 32 bytes after the parity byte of a compressed public key.
fn x_only_part(pk: &Vec<u8>) -> (r: Vec<u8>)
    requires
        pk@.len() == 33,
    ensures
        r@ == pk@.subrange(1, 33),
{
    let mut r: Vec<u8> = Vec::new();
    let mut i: usize = 1;
    while i < 33
        invariant
            1 <= i <= 33,
            pk@.len() == 33,
            r@ == pk@.subrange(1, i as int),
        decreases 33 - i,
    {
        r.push(pk[i]);
        i = i + 1;
        assert(r@ =~= pk@.subrange(1, i as int));
    }
    r
}

/// Makes a passive key pair active.
pub fn enable_key(state: &mut State, pubkey: &Vec<u8>) -> (r: Result<(), Error>)
    requires
        old(state).wf(),
    ensures
        final(state).wf(),
        *final(state) == (State { keys: final(state).keys, ..*old(state) }),
        r is Ok <==> holds_with_status(old(state).keys@, pubkey@, false),
        r is Ok ==> final(state).keys@ == with_status(old(state).keys@, pubkey@, true),
        r matches Err(e) ==> e == Error::UnknownKey && *final(state) == *old(state),
{
    if state.keys.set_status(pubkey, true) {
        Ok(())
    } else {
        Err(Error::UnknownKey)
    }
}

/// Makes an active key pair passive.
pub fn disable_key(state: &mut State, pubkey: &Vec<u8>) -> (r: Result<(), Error>)
    requires
        old(state).wf(),
    ensures
        final(state).wf(),
        *final(state) == (State { keys: final(state).keys, ..*old(state) }),
        r is Ok <==> holds_with_status(old(state).keys@, pubkey@, true),
        r is Ok ==> final(state).keys@ == with_status(old(state).keys@, pubkey@, false),
        r matches Err(e) ==> e == Error::UnknownKey && *final(state) == *old(state),
{
    if state.keys.set_status(pubkey, false) {
        Ok(())
    } else {
        Err(Error::UnknownKey)
    }
}

/// Moves a key pair to the other partition.
pub fn toggle_key(state: &mut State, pubkey: &Vec<u8>) -> (r: Result<(), Error>)
    requires
        old(state).wf(),
    ensures
        final(state).wf(),
        *final(state) == (State { keys: final(state).keys, ..*old(state) }),
        r is Ok <==> contains_id(old(state).keys@, pubkey@),
        r is Ok ==> final(state).keys@ == toggled(old(state).keys@, pubkey@),
        r matches Err(e) ==> e == Error::UnknownKey && *final(state) == *old(state),
{
    if state.keys.toggle(pubkey) {
        Ok(())
    } else {
        Err(Error::UnknownKey)
    }
}

/// Deletes a key pair from either partition and hands back its secret.
pub fn delete_key(state: &mut State, pubkey: &Vec<u8>) -> (r: Result<Vec<u8>, Error>)
    requires
        old(state).wf(),
    ensures
        final(state).wf(),
        *final(state) == (State { keys: final(state).keys, ..*old(state) }),
        r is Ok <==> contains_id(old(state).keys@, pubkey@),
        r matches Ok(s) ==> final(state).keys@ == without(old(state).keys@, pubkey@)
            && s@ == old(state).keys@[index_of(old(state).keys@, pubkey@)].1,
        r matches Err(e) ==> e == Error::UnknownKey && *final(state) == *old(state),
{
    match state.keys.remove(pubkey) {
        Some(s) => Ok(s),
        None => Err(Error::UnknownKey),
    }
}

} // verus!
