use txlab::address::{into_utxo, set_address};
use txlab::error::Error;
use txlab::image::{delete_image, disable_image, enable_image, generate_images, toggle_image};
use txlab::input::{add_from_utxo, delete_input, set_sequence_max, update_sequence_height};
use txlab::key::{delete_key, disable_key, enable_key, generate_keys, toggle_key};
use txlab::output::{add_output, delete_output};
use txlab::spend::plan_transaction;
use txlab::state::{Descriptor, Policy, State};
use txlab::timelock::{check_after, check_older, SEQUENCE_MAX};
use txlab::transaction::{finalize_transaction, update_fee, update_locktime};
use txlab::util::get_remaining_funds;
use txlab::utxo::delete_utxo;

const NUMS: &str = "50929b74c1a04954b78b4b6035e97a5e078a5a0f28ec96d547bfee9ace803ac0";
const GX: &str = "79be667ef9dcbbac55a06295ce870b07029bfcdb2dce28d959f2815b16f81798";

fn hex(s: &str) -> Vec<u8> {
    (0..s.len() / 2).map(|i| u8::from_str_radix(&s[2 * i..2 * i + 2], 16).unwrap()).collect()
}

fn descriptor() -> Descriptor {
    Descriptor::new(&Policy::General(format!("eltr({})", NUMS))).unwrap()
}

fn fund(state: &mut State, txid_byte: u8, value: u64) {
    set_address(state, descriptor()).unwrap();
    into_utxo(state, vec![txid_byte; 32], 0, value).unwrap();
}

fn secret(last: u8) -> Vec<u8> {
    let mut s = vec![0u8; 32];
    s[31] = last;
    s
}

#[test]
fn remaining_output_receives_inputs_minus_fee() {
    let mut state = State::new();
    fund(&mut state, 1, 100_000);
    add_from_utxo(&mut state, 0, 0).unwrap();
    add_output(&mut state, 0, descriptor(), 0).unwrap();
    update_fee(&mut state, 500).unwrap();
    let plan = plan_transaction(&mut state).unwrap();
    assert_eq!(plan.outputs.len(), 1);
    assert_eq!(plan.outputs[0].value, 99_500);
    assert_eq!(plan.fee, 500);
    assert_eq!(plan.version, 2);
    assert_eq!(state.outputs.entries[0].1.value, 99_500);
}

#[test]
fn remaining_output_after_fixed_output_and_fee() {
    let mut state = State::new();
    fund(&mut state, 1, 90_000);
    fund(&mut state, 2, 60_000);
    add_from_utxo(&mut state, 0, 0).unwrap();
    add_from_utxo(&mut state, 1, 1).unwrap();
    add_output(&mut state, 0, descriptor(), 100_000).unwrap();
    add_output(&mut state, 1, descriptor(), 0).unwrap();
    update_fee(&mut state, 1_000).unwrap();
    assert_eq!(get_remaining_funds(&state), Ok(Some((1, 49_000))));
    let plan = plan_transaction(&mut state).unwrap();
    assert_eq!(plan.inputs.len(), 2);
    assert_eq!(plan.inputs[0].value, 90_000);
    assert_eq!(plan.inputs[1].value, 60_000);
    assert_eq!(plan.outputs[0].value, 100_000);
    assert_eq!(plan.outputs[1].value, 49_000);
}

#[test]
fn not_enough_funds_leaves_state_unchanged() {
    let mut state = State::new();
    fund(&mut state, 1, 100);
    add_from_utxo(&mut state, 0, 0).unwrap();
    add_output(&mut state, 0, descriptor(), 200).unwrap();
    update_fee(&mut state, 0).unwrap();
    assert_eq!(plan_transaction(&mut state).err(), Some(Error::NotEnoughFunds));
    assert_eq!(state.outputs.entries.len(), 1);
    assert_eq!(state.outputs.entries[0].1.value, 200);
    assert_eq!(state.inputs.entries.len(), 1);
    assert_eq!(state.fee, 0);
}

#[test]
fn not_enough_funds_with_remaining_output() {
    let mut state = State::new();
    fund(&mut state, 1, 100);
    add_from_utxo(&mut state, 0, 0).unwrap();
    add_output(&mut state, 0, descriptor(), 200).unwrap();
    add_output(&mut state, 1, descriptor(), 0).unwrap();
    assert_eq!(get_remaining_funds(&state), Err(Error::NotEnoughFunds));
    assert_eq!(plan_transaction(&mut state).err(), Some(Error::NotEnoughFunds));
    assert_eq!(state.outputs.entries[1].1.value, 0);
}

#[test]
fn second_zero_output_is_refused() {
    let mut state = State::new();
    assert!(add_output(&mut state, 0, descriptor(), 0).unwrap().is_none());
    assert_eq!(add_output(&mut state, 1, descriptor(), 0).err(), Some(Error::OneZeroOutput));
    assert_eq!(state.outputs.entries.len(), 1);
    // replacing the zero output itself is no second one
    assert!(add_output(&mut state, 0, descriptor(), 0).unwrap().is_some());
    assert!(add_output(&mut state, 1, descriptor(), 5).is_ok());
}

#[test]
fn gap_in_inputs_is_refused() {
    let mut state = State::new();
    fund(&mut state, 1, 1_000);
    fund(&mut state, 2, 1_000);
    add_from_utxo(&mut state, 0, 0).unwrap();
    add_from_utxo(&mut state, 2, 1).unwrap();
    add_output(&mut state, 0, descriptor(), 0).unwrap();
    assert_eq!(plan_transaction(&mut state).err(), Some(Error::MissingInput));
    assert_eq!(state.outputs.entries[0].1.value, 0);
}

#[test]
fn gap_in_outputs_is_refused() {
    let mut state = State::new();
    fund(&mut state, 1, 1_000);
    add_from_utxo(&mut state, 0, 0).unwrap();
    add_output(&mut state, 0, descriptor(), 10).unwrap();
    add_output(&mut state, 2, descriptor(), 10).unwrap();
    assert_eq!(plan_transaction(&mut state).err(), Some(Error::MissingOutput));
}

#[test]
fn finalize_turns_outputs_into_coins() {
    let mut state = State::new();
    add_output(&mut state, 0, descriptor(), 700).unwrap();
    add_output(&mut state, 1, descriptor(), 300).unwrap();
    let txid = vec![7u8; 32];
    finalize_transaction(&mut state, txid.clone()).unwrap();
    assert_eq!(state.utxos.len(), 2);
    assert_eq!(state.utxos[0].txid, txid);
    assert_eq!(state.utxos[0].vout, 0);
    assert_eq!(state.utxos[0].value, 700);
    assert_eq!(state.utxos[1].txid, txid);
    assert_eq!(state.utxos[1].vout, 1);
    assert_eq!(state.utxos[1].value, 300);
    assert_eq!(state.inputs.entries.len(), 1);
    assert_eq!(state.inputs.entries[0].0, 0);
    assert_eq!(state.inputs.entries[0].1.utxo.txid, txid);
    assert_eq!(state.inputs.entries[0].1.utxo.vout, 0);
    assert_eq!(state.inputs.entries[0].1.sequence, SEQUENCE_MAX);
    assert_eq!(state.outputs.entries.len(), 0);
}

#[test]
fn finalize_removes_spent_coins_and_assigns_remaining() {
    let mut state = State::new();
    fund(&mut state, 1, 5_000);
    fund(&mut state, 2, 8_000);
    add_from_utxo(&mut state, 0, 0).unwrap();
    add_output(&mut state, 0, descriptor(), 0).unwrap();
    update_fee(&mut state, 100).unwrap();
    finalize_transaction(&mut state, vec![9u8; 32]).unwrap();
    assert_eq!(state.utxos.len(), 2);
    assert_eq!(state.utxos[0].txid, vec![2u8; 32]);
    assert_eq!(state.utxos[1].txid, vec![9u8; 32]);
    assert_eq!(state.utxos[1].value, 4_900);
}

#[test]
fn passive_preimage_is_never_revealed() {
    let mut state = State::new();
    let preimage = vec![0x42u8; 32];
    generate_images(&mut state, vec![preimage.clone()]).unwrap();
    let image = state.images.entries[0].id.clone();
    assert_eq!(state.lookup_preimage(&image), None);
    enable_image(&mut state, &image).unwrap();
    assert_eq!(state.lookup_preimage(&image), Some(preimage));
}

#[test]
fn image_is_sha256_of_preimage() {
    let mut state = State::new();
    generate_images(&mut state, vec![b"abc".to_vec()]).unwrap();
    let digest = hex("ba7816bf8f01cfea414140de5dae2223b00361a396177a9cb410ff61f20015ad");
    assert_eq!(delete_image(&mut state, &digest), Ok(b"abc".to_vec()));
    assert_eq!(state.images.entries.len(), 0);
}

#[test]
fn toggling_twice_restores_partitions() {
    let mut state = State::new();
    generate_keys(&mut state, vec![secret(1)]).unwrap();
    generate_images(&mut state, vec![vec![1u8; 32]]).unwrap();
    let key = state.keys.entries[0].id.clone();
    let image = state.images.entries[0].id.clone();
    toggle_key(&mut state, &key).unwrap();
    assert!(state.keys.entries[0].active);
    toggle_key(&mut state, &key).unwrap();
    assert!(!state.keys.entries[0].active);
    toggle_image(&mut state, &image).unwrap();
    assert!(state.images.entries[0].active);
    toggle_image(&mut state, &image).unwrap();
    assert!(!state.images.entries[0].active);
    assert_eq!(toggle_key(&mut state, &vec![0u8; 32]), Err(Error::UnknownKey));
    assert_eq!(toggle_image(&mut state, &vec![0u8; 32]), Err(Error::UnknownImage));
}

#[test]
fn enable_and_disable_follow_the_partition() {
    let mut state = State::new();
    generate_keys(&mut state, vec![secret(1)]).unwrap();
    let key = hex(GX);
    assert_eq!(disable_key(&mut state, &key), Err(Error::UnknownKey));
    assert_eq!(enable_key(&mut state, &key), Ok(()));
    assert_eq!(state.active_key(&key), Some(secret(1)));
    assert_eq!(enable_key(&mut state, &key), Err(Error::UnknownKey));
    assert_eq!(disable_key(&mut state, &key), Ok(()));
    assert_eq!(state.active_key(&key), None);
    generate_images(&mut state, vec![vec![3u8; 32]]).unwrap();
    let image = state.images.entries[0].id.clone();
    assert_eq!(disable_image(&mut state, &image), Err(Error::UnknownImage));
    assert_eq!(enable_image(&mut state, &image), Ok(()));
    assert_eq!(disable_image(&mut state, &image), Ok(()));
}

#[test]
fn generated_key_is_normalised_to_even_y() {
    let mut state = State::new();
    // n - 1 is the negation of 1: its public key is -G, whose y is odd
    let minus_one = hex("fffffffffffffffffffffffffffffffebaaedce6af48a03bbfd25e8cd0364140");
    generate_keys(&mut state, vec![minus_one]).unwrap();
    assert_eq!(state.keys.entries.len(), 1);
    assert_eq!(state.keys.entries[0].id, hex(GX));
    assert_eq!(state.keys.entries[0].secret, secret(1));
    assert!(!state.keys.entries[0].active);
    // the same key again adds nothing
    generate_keys(&mut state, vec![secret(1)]).unwrap();
    assert_eq!(state.keys.entries.len(), 1);
}

#[test]
fn invalid_secret_is_refused() {
    let mut state = State::new();
    assert_eq!(generate_keys(&mut state, vec![secret(2), vec![0u8; 32]]), Err(Error::InvalidSecret));
    assert_eq!(state.keys.entries.len(), 0);
}

#[test]
fn deleting_unknown_items_changes_nothing() {
    let mut state = State::new();
    generate_keys(&mut state, vec![secret(5)]).unwrap();
    generate_images(&mut state, vec![vec![5u8; 32]]).unwrap();
    fund(&mut state, 1, 1_000);
    add_from_utxo(&mut state, 0, 0).unwrap();
    add_output(&mut state, 0, descriptor(), 10).unwrap();
    assert_eq!(delete_key(&mut state, &vec![0u8; 32]), Err(Error::UnknownKey));
    assert_eq!(delete_image(&mut state, &vec![0u8; 32]), Err(Error::UnknownImage));
    assert_eq!(delete_utxo(&mut state, 1).err(), Some(Error::MissingUtxo));
    assert_eq!(delete_input(&mut state, 1).err(), Some(Error::MissingInput));
    assert_eq!(delete_output(&mut state, 1).err(), Some(Error::MissingOutput));
    assert_eq!(state.keys.entries.len(), 1);
    assert_eq!(state.images.entries.len(), 1);
    assert_eq!(state.utxos.len(), 1);
    assert_eq!(state.inputs.entries.len(), 1);
    assert_eq!(state.outputs.entries.len(), 1);
    let key = state.keys.entries[0].id.clone();
    assert_eq!(delete_key(&mut state, &key), Ok(secret(5)));
    assert!(delete_utxo(&mut state, 0).is_ok());
    assert!(delete_input(&mut state, 0).is_ok());
    assert!(delete_output(&mut state, 0).is_ok());
}

#[test]
fn same_coin_in_two_slots_is_refused() {
    let mut state = State::new();
    fund(&mut state, 1, 1_000);
    add_from_utxo(&mut state, 0, 0).unwrap();
    assert_eq!(add_from_utxo(&mut state, 1, 0).err(), Some(Error::DoubleSpend));
    assert_eq!(state.inputs.entries.len(), 1);
    // binding it again to its own slot replaces that slot
    assert!(add_from_utxo(&mut state, 0, 0).unwrap().is_some());
    assert_eq!(add_from_utxo(&mut state, 1, 5).err(), Some(Error::MissingUtxo));
}

#[test]
fn missing_inbound_address_is_refused() {
    let mut state = State::new();
    assert_eq!(into_utxo(&mut state, vec![1u8; 32], 0, 10), Err(Error::MissingAddress));
    fund(&mut state, 1, 10);
    // the address is consumed by funding it
    assert_eq!(into_utxo(&mut state, vec![1u8; 32], 0, 10), Err(Error::MissingAddress));
    // the same funding twice gives one coin
    fund(&mut state, 1, 10);
    assert_eq!(state.utxos.len(), 1);
}

#[test]
fn descriptor_compiles_to_taproot_script() {
    let d = descriptor();
    assert_eq!(d.script_pubkey.len(), 34);
    assert_eq!(d.script_pubkey[0], 0x51);
    assert_eq!(d.script_pubkey[1], 0x20);
    assert_ne!(&d.script_pubkey[2..], &hex(NUMS)[..]);
    assert_eq!(Descriptor::new(&Policy::General(String::from("not a descriptor"))).err(), Some(Error::Policy));
    assert_eq!(Descriptor::new(&Policy::General(String::from("elwsh(older(10))"))).err(), Some(Error::OnlyTaproot));
}

#[test]
fn address_of_inbound_descriptor() {
    let mut state = State::new();
    let address = set_address(&mut state, descriptor()).unwrap();
    assert!(address.starts_with("ert1p"));
    assert!(state.inbound_address.is_some());
}

#[test]
fn sequence_and_locktime_rules() {
    let mut state = State::new();
    fund(&mut state, 1, 1_000);
    add_from_utxo(&mut state, 0, 0).unwrap();
    assert!(!state.locktime_enabled());
    update_sequence_height(&mut state, 0, 10).unwrap();
    assert_eq!(state.inputs.entries[0].1.sequence, 10);
    assert!(state.locktime_enabled());
    set_sequence_max(&mut state, 0).unwrap();
    assert!(!state.locktime_enabled());
    assert_eq!(update_sequence_height(&mut state, 3, 10), Err(Error::MissingInput));
    assert_eq!(update_locktime(&mut state, 500_000_000), Err(Error::InvalidHeight));
    assert_eq!(update_locktime(&mut state, 120), Ok(()));
    assert_eq!(state.locktime, 120);
    assert!(check_older(10, 10));
    assert!(check_older(10, 5));
    assert!(!check_older(10, 11));
    assert!(!check_older(SEQUENCE_MAX, 1));
    assert!(!check_older(10, 0x0040_0001));
    assert!(check_after(120, 0, 100));
    assert!(!check_after(120, 0, 121));
    assert!(!check_after(120, SEQUENCE_MAX, 100));
    assert!(!check_after(120, 0, 500_000_001));
}

#[test]
fn simplicity_policy_commits_under_unspendable_key() {
    let policy = Policy::Simplicity(format!("pk({})", GX));
    let d = Descriptor::new(&policy).unwrap();
    assert_eq!(d.text, format!("eltr({},sim{{pk({})}})", NUMS, GX));
    assert_eq!(d.script_pubkey.len(), 34);
    assert_eq!(d.script_pubkey[0], 0x51);
    // another policy commits to another output key
    let other = Descriptor::new(&Policy::Simplicity(format!("sha256({})", NUMS))).unwrap();
    assert_ne!(d.script_pubkey, other.script_pubkey);
    // the key path alone gives yet another
    assert_ne!(d.script_pubkey, descriptor().script_pubkey);
    assert_eq!(Descriptor::new(&Policy::Simplicity(String::from("pk("))).err(), Some(Error::Policy));
}

#[test]
fn general_policy_is_the_descriptor_text() {
    let text = format!("eltr({})", NUMS);
    let d = Descriptor::new(&Policy::General(text.clone())).unwrap();
    assert_eq!(d.text, text);
    assert_eq!(d.script_pubkey, descriptor().script_pubkey);
}

#[test]
fn exact_funds_leave_zero_for_remaining_output() {
    let mut state = State::new();
    fund(&mut state, 1, 1_000);
    add_from_utxo(&mut state, 0, 0).unwrap();
    add_output(&mut state, 0, descriptor(), 900).unwrap();
    add_output(&mut state, 1, descriptor(), 0).unwrap();
    update_fee(&mut state, 100).unwrap();
    let plan = plan_transaction(&mut state).unwrap();
    assert_eq!(plan.outputs[1].value, 0);
    update_fee(&mut state, 101).unwrap();
    assert_eq!(plan_transaction(&mut state).err(), Some(Error::NotEnoughFunds));
}

#[test]
fn remaining_funds_beyond_64_bits_are_refused() {
    let mut state = State::new();
    fund(&mut state, 1, u64::MAX);
    fund(&mut state, 2, u64::MAX);
    add_from_utxo(&mut state, 0, 0).unwrap();
    add_from_utxo(&mut state, 1, 1).unwrap();
    add_output(&mut state, 0, descriptor(), 0).unwrap();
    assert_eq!(plan_transaction(&mut state).err(), Some(Error::ValueOverflow));
    // with a fixed output the large total is no error
    add_output(&mut state, 0, descriptor(), u64::MAX).unwrap();
    let plan = plan_transaction(&mut state).unwrap();
    assert_eq!(plan.outputs[0].value, u64::MAX);
}
