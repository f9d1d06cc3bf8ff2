use vstd::prelude::*;
use crate::crypto::{taproot_address, taproot_address_of, taproot_script, taproot_script_of};
use crate::error::Error;
use crate::secrets::{copy_bytes, SecretStore};
use crate::slots::{Slots, sorted};
use crate::timelock::{enables_absolute_spec, LOCK_TIME_THRESHOLD, SEQUENCE_MAX};
use vstd::string::StringExecFns;

verus! {

/// A compiled spending policy: the descriptor text and the locking script it
/// commits to.
#[derive(Debug)]
pub struct Descriptor {
    pub text: String,
    pub script_pubkey: Vec<u8>,
}

/// The abstract value of a descriptor.
pub struct DescriptorModel {
    pub text: Seq<char>,
    pub script_pubkey: Seq<u8>,
}

impl View for Descriptor {
    type V = DescriptorModel;

    open spec fn view(&self) -> DescriptorModel {
        DescriptorModel { text: self.text@, script_pubkey: self.script_pubkey@ }
    }
}

/// A spendable coin: the descriptor that locks it, its outpoint and its value.
#[derive(Debug)]
pub struct Utxo {
    pub descriptor: Descriptor,
    pub txid: Vec<u8>,
    pub vout: u32,
    pub value: u64,
}

/// The abstract value of a coin.
pub struct UtxoModel {
    pub descriptor: DescriptorModel,
    pub txid: Seq<u8>,
    pub vout: u32,
    pub value: u64,
}

impl View for Utxo {
    type V = UtxoModel;

    open spec fn view(&self) -> UtxoModel {
        UtxoModel { descriptor: self.descriptor@, txid: self.txid@, vout: self.vout, value: self.value }
    }
}

/// A staged transaction input: the coin it spends and its sequence value.
#[derive(Debug)]
pub struct Input {
    pub utxo: Utxo,
    pub sequence: u32,
}

/// The abstract value of an input.
pub struct InputModel {
    pub utxo: UtxoModel,
    pub sequence: u32,
}

impl View for Input {
    type V = InputModel;

    open spec fn view(&self) -> InputModel {
        InputModel { utxo: self.utxo@, sequence: self.sequence }
    }
}

/// A staged transaction output. Value zero marks the output that receives
/// the remaining funds.
#[derive(Debug)]
pub struct Output {
    pub value: u64,
    pub descriptor: Descriptor,
}

/// The abstract value of an output.
pub struct OutputModel {
    pub value: u64,
    pub descriptor: DescriptorModel,
}

impl View for Output {
    type V = OutputModel;

    open spec fn view(&self) -> OutputModel {
        OutputModel { value: self.value, descriptor: self.descriptor@ }
    }
}

/// The x-only key with no known discrete logarithm, used as the internal key of
/// Simplicity commitments so that only the script path can spend.
pub const UNSPENDABLE_KEY: &'static str = "50929b74c1a04954b78b4b6035e97a5e078a5a0f28ec96d547bfee9ace803ac0";

/// A spending policy in one of the two supported languages.
#[derive(Debug)]
pub enum Policy {
    /// A taproot descriptor in elements-miniscript's language (`eltr(...)`),
    /// with any internal key and script tree.
    General(String),
    /// A Simplicity policy, committed as the single leaf of a tree whose
    /// internal key is the unspendable key.
    Simplicity(String),
}

/// The descriptor text that a policy compiles as.
pub open spec fn policy_text(p: Policy) -> Seq<char> {
    match p {
        Policy::General(t) => t@,
        Policy::Simplicity(t) => "eltr("@ + UNSPENDABLE_KEY@ + ",sim{"@ + t@ + "})"@,
    }
}

impl Descriptor {
    /// Compiles a policy of either language into a taproot descriptor.
    pub fn new(policy: &Policy) -> (r: Result<Descriptor, Error>)
        ensures
            r matches Ok(d) ==> d@.text == policy_text(*policy) && taproot_script_of(policy_text(*policy)) == Some(
                d@.script_pubkey,
            ),
            r matches Err(e) ==> taproot_script_of(policy_text(*policy)) is None && (e == Error::Policy || e
                == Error::OnlyTaproot),
    {
        match policy {
            Policy::General(t) => Descriptor::compile(t.as_str()),
            Policy::Simplicity(t) => {
                let mut text = "eltr(".to_owned();
                text.append(UNSPENDABLE_KEY);
                text.append(",sim{");
                text.append(t.as_str());
                text.append("})");
                Descriptor::compile(text.as_str())
            },
        }
    }

    /// Compiles descriptor text into a taproot descriptor.
    fn compile(text: &str) -> (r: Result<Descriptor, Error>)
        ensures
            r matches Ok(d) ==> d@.text == text@ && taproot_script_of(text@) == Some(d@.script_pubkey),
            r matches Err(e) ==> taproot_script_of(text@) is None && (e == Error::Policy || e == Error::OnlyTaproot),
    {
        let script_pubkey = taproot_script(text)?;
        Ok(Descriptor { text: text.to_owned(), script_pubkey })
    }

    /// The address that pays to this descriptor.
    pub fn address(&self) -> (r: Result<String, Error>)
        ensures
            r matches Ok(a) ==> taproot_address_of(self@.text) == Some(a@),
            r matches Err(e) ==> taproot_address_of(self@.text) is None && e == Error::Policy,
    {
        match taproot_address(self.text.as_str()) {
            Some(a) => Ok(a),
            None => Err(Error::Policy),
        }
    }

    /// A copy of the descriptor.
    pub fn copy(&self) -> (r: Descriptor)
        ensures
            r@ == self@,
    {
        Descriptor { text: self.text.clone(), script_pubkey: copy_bytes(&self.script_pubkey) }
    }
}

impl Utxo {
    /// A copy of the coin.
    pub fn copy(&self) -> (r: Utxo)
        ensures
            r@ == self@,
    {
        Utxo { descriptor: self.descriptor.copy(), txid: copy_bytes(&self.txid), vout: self.vout, value: self.value }
    }
}

/// The coins of a list, as abstract values.
pub open spec fn utxo_models(utxos: Seq<Utxo>) -> Seq<UtxoModel> {
    utxos.map_values(|u: Utxo| u@)
}

/// Two coins with the same outpoint are the same coin.
pub open spec fn same_outpoint(a: UtxoModel, b: UtxoModel) -> bool {
    a.txid == b.txid && a.vout == b.vout
}

/// No two coins of the list share an outpoint.
pub open spec fn unique_outpoints(utxos: Seq<UtxoModel>) -> bool {
    forall|i: int, j: int| 0 <= i < j < utxos.len() ==> !same_outpoint(#[trigger] utxos[i], #[trigger] utxos[j])
}

/// Removing a coin keeps the outpoints unique.
pub proof fn lemma_unique_remove(utxos: Seq<Utxo>, k: int)
    requires
        unique_outpoints(utxo_models(utxos)),
        0 <= k < utxos.len(),
    ensures
        unique_outpoints(utxo_models(utxos.remove(k))),
{
    let v = utxo_models(utxos);
    let w = utxo_models(utxos.remove(k));
    assert forall|i: int, j: int| 0 <= i < j < w.len() implies !same_outpoint(#[trigger] w[i], #[trigger] w[j]) by {
        let i2 = if i < k { i } else { i + 1 };
        let j2 = if j < k { j } else { j + 1 };
        assert(w[i] == v[i2] && w[j] == v[j2]);
    }
}

/// Whether no two coins of the list share an outpoint.
fn outpoints_unique(utxos: &Vec<Utxo>) -> (r: bool)
    ensures
        r == unique_outpoints(utxo_models(utxos@)),
{
    let ghost v = utxo_models(utxos@);
    let mut i: usize = 0;
    while i < utxos.len()
        invariant
            i <= utxos@.len(),
            v == utxo_models(utxos@),
            forall|a: int, b: int| 0 <= a < b < v.len() && a < i ==> !same_outpoint(#[trigger] v[a], #[trigger] v[b]),
        decreases utxos@.len() - i,
    {
        let mut j: usize = i + 1;
        while j < utxos.len()
            invariant
                i < utxos@.len(),
                i < j <= utxos@.len(),
                v == utxo_models(utxos@),
                forall|a: int, b: int| 0 <= a < b < v.len() && a < i ==> !same_outpoint(#[trigger] v[a], #[trigger] v[b]),
                forall|b: int| i < b < j ==> !same_outpoint(v[i as int], #[trigger] v[b]),
            decreases utxos@.len() - j,
        {
            if crate::input::same_coin(&utxos[i], &utxos[j]) {
                assert(same_outpoint(v[i as int], v[j as int]));
                return false;
            }
            j = j + 1;
        }
        i = i + 1;
    }
    true
}

/// At most one output has value zero.
pub open spec fn at_most_one_zero(outputs: Seq<(usize, OutputModel)>) -> bool {
    forall|i: int, j: int|
        0 <= i < outputs.len() && 0 <= j < outputs.len() && #[trigger] outputs[i].1.value == 0
            && #[trigger] outputs[j].1.value == 0 ==> i == j
}

/// Some input lets the transaction's absolute lock time apply.
pub open spec fn some_input_enables_locktime(inputs: Seq<(usize, InputModel)>) -> bool {
    exists|i: int| 0 <= i < inputs.len() && enables_absolute_spec(#[trigger] inputs[i].1.sequence)
}

/// The whole ledger.
#[derive(Debug)]
pub struct State {
    pub keys: SecretStore,
    pub images: SecretStore,
    pub inbound_address: Option<Descriptor>,
    pub utxos: Vec<Utxo>,
    pub inputs: Slots<Input>,
    pub outputs: Slots<Output>,
    pub locktime: u32,
    pub fee: u64,
}

impl State {
    /// The ledger's invariant.
    pub open spec fn wf(&self) -> bool {
        &&& self.keys.wf()
        &&& self.images.wf()
        &&& self.inputs.wf()
        &&& self.outputs.wf()
        &&& self.locktime < LOCK_TIME_THRESHOLD
        &&& at_most_one_zero(self.outputs@)
        &&& unique_outpoints(utxo_models(self.utxos@))
    }

    /// An empty ledger, with lock time zero and no fee.
    pub fn new() -> (r: State)
        ensures
            r.wf(),
            r.keys@.len() == 0,
            r.images@.len() == 0,
            r.inbound_address is None,
            r.utxos@.len() == 0,
            r.inputs@.len() == 0,
            r.outputs@.len() == 0,
            r.locktime == 0,
            r.fee == 0,
    {
        State {
            keys: SecretStore::new(),
            images: SecretStore::new(),
            inbound_address: None,
            utxos: Vec::new(),
            inputs: Slots::new(),
            outputs: Slots::new(),
            locktime: 0,
            fee: 0,
        }
    }

    /// Whether some input's sequence lets the absolute lock time apply.
    pub fn locktime_enabled(&self) -> (r: bool)
        ensures
            r == some_input_enables_locktime(self.inputs@),
    {
        let mut i: usize = 0;
        while i < self.inputs.entries.len()
            invariant
                i <= self.inputs@.len(),
                self.inputs@.len() == self.inputs.entries@.len(),
                forall|j: int| 0 <= j < i ==> !enables_absolute_spec(#[trigger] self.inputs@[j].1.sequence),
            decreases self.inputs.entries@.len() - i,
        {
            if self.inputs.entries[i].1.sequence != SEQUENCE_MAX {
                assert(enables_absolute_spec(self.inputs@[i as int].1.sequence));
                return true;
            }
            i = i + 1;
        }
        false
    }

    /// Whether the ledger meets its invariant; a ledger read from outside is
    /// checked with this before use.
    pub fn is_consistent(&self) -> (r: bool)
        ensures
            r == self.wf(),
    {
        self.keys.check_unique() && self.images.check_unique() && self.inputs.check_sorted()
            && self.outputs.check_sorted() && self.locktime < LOCK_TIME_THRESHOLD
            && zero_outputs_at_most_one(&self.outputs) && outpoints_unique(&self.utxos)
    }
}

/// Whether at most one output has value zero.
fn zero_outputs_at_most_one(outputs: &Slots<Output>) -> (r: bool)
    ensures
        r == at_most_one_zero(outputs@),
{
    let mut seen: Option<usize> = None;
    let mut i: usize = 0;
    while i < outputs.entries.len()
        invariant
            i <= outputs@.len(),
            outputs@.len() == outputs.entries@.len(),
            at_most_one_zero(outputs@.subrange(0, i as int)),
            seen is None ==> forall|j: int| 0 <= j < i ==> #[trigger] outputs@[j].1.value != 0,
            seen matches Some(z) ==> z < i && outputs@[z as int].1.value == 0,
        decreases outputs.entries@.len() - i,
    {
        if outputs.entries[i].1.value == 0 {
            assert(outputs@[i as int].1.value == 0);
            if let Some(z) = seen {
                assert(!at_most_one_zero(outputs@)) by {
                    assert(outputs@[z as int].1.value == 0);
                }
                return false;
            }
            seen = Some(i);
        }
        i = i + 1;
        assert(at_most_one_zero(outputs@.subrange(0, i as int))) by {
            let s = outputs@.subrange(0, i as int);
            assert forall|a: int, b: int| 0 <= a < s.len() && 0 <= b < s.len() && #[trigger] s[a].1.value == 0
                && #[trigger] s[b].1.value == 0 implies a == b by {
                assert(s[a] == outputs@[a]);
                assert(s[b] == outputs@[b]);
            }
        }
    }
    assert(outputs@.subrange(0, outputs@.len() as int) =~= outputs@);
    true
}

} // verus!
