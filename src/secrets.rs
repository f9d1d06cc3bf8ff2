use vstd::prelude::*;

verus! {

/// A secret known to the ledger: a key pair or a hash preimage.
///
/// `id` is what the secret is looked up by (an x-only public key, or a hash
/// image), `secret` the material itself, and `active` whether the secret may
/// be used for spending.
#[derive(Debug)]
pub struct SecretEntry {
    pub id: Vec<u8>,
    pub secret: Vec<u8>,
    pub active: bool,
}

/// The abstract value of an entry: its identity, its secret, its status.
pub type EntryView = (Seq<u8>, Seq<u8>, bool);

impl View for SecretEntry {
    type V = EntryView;

    open spec fn view(&self) -> EntryView {
        (self.id@, self.secret@, self.active)
    }
}

/// Secrets, each held once, each either passive or active.
///
/// One list with a status per entry: a secret is in exactly one of the two
/// partitions by construction.
#[derive(Debug)]
pub struct SecretStore {
    pub entries: Vec<SecretEntry>,
}

impl View for SecretStore {
    type V = Seq<EntryView>;

    open spec fn view(&self) -> Seq<EntryView> {
        self.entries@.map_values(|e: SecretEntry| e@)
    }
}

/// No two entries share an identity.
pub open spec fn unique_ids(v: Seq<EntryView>) -> bool {
    forall|i: int, j: int| 0 <= i < j < v.len() ==> #[trigger] v[i].0 != #[trigger] v[j].0
}

/// Some entry has identity `id`.
pub open spec fn contains_id(v: Seq<EntryView>, id: Seq<u8>) -> bool {
    exists|i: int| 0 <= i < v.len() && #[trigger] v[i].0 == id
}

/// The position of the entry with identity `id`, where there is one.
pub open spec fn index_of(v: Seq<EntryView>, id: Seq<u8>) -> int {
    choose|i: int| 0 <= i < v.len() && #[trigger] v[i].0 == id
}

/// Some entry has identity `id` and the status `active`.
pub open spec fn holds_with_status(v: Seq<EntryView>, id: Seq<u8>, active: bool) -> bool {
    contains_id(v, id) && v[index_of(v, id)].2 == active
}

/// The entries with the status of `id` flipped.
pub open spec fn toggled(v: Seq<EntryView>, id: Seq<u8>) -> Seq<EntryView> {
    v.map_values(|e: EntryView| if e.0 == id { (e.0, e.1, !e.2) } else { e })
}

/// The entries with the status of `id` set to `active`.
pub open spec fn with_status(v: Seq<EntryView>, id: Seq<u8>, active: bool) -> Seq<EntryView> {
    v.map_values(|e: EntryView| if e.0 == id { (e.0, e.1, active) } else { e })
}

/// The entries after adding `id` as a passive secret, unless it is held already.
pub open spec fn with_passive(v: Seq<EntryView>, id: Seq<u8>, secret: Seq<u8>) -> Seq<EntryView> {
    if contains_id(v, id) {
        v
    } else {
        v.push((id, secret, false))
    }
}

/// The entries after removing `id`.
pub open spec fn without(v: Seq<EntryView>, id: Seq<u8>) -> Seq<EntryView> {
    if contains_id(v, id) {
        v.remove(index_of(v, id))
    } else {
        v
    }
}

/// The secret that may be used for `id`: present only when `id` is active.
pub open spec fn active_secret(v: Seq<EntryView>, id: Seq<u8>) -> Option<Seq<u8>> {
    if holds_with_status(v, id, true) {
        Some(v[index_of(v, id)].1)
    } else {
        None
    }
}

/// Toggling the same identity twice gives back the entries as they were.
pub proof fn lemma_toggle_involution(v: Seq<EntryView>, id: Seq<u8>)
    ensures
        toggled(toggled(v, id), id) == v,
{
    assert(toggled(toggled(v, id), id) =~= v);
}

/// Whether two byte strings are equal.
pub fn bytes_eq(a: &Vec<u8>, b: &Vec<u8>) -> (r: bool)
    ensures
        r == (a@ == b@),
{
    if a.len() != b.len() {
        return false;
    }
    let mut i: usize = 0;
    while i < a.len()
        invariant
            a@.len() == b@.len(),
            i <= a@.len(),
            forall|k: int| 0 <= k < i ==> a@[k] == b@[k],
        decreases a@.len() - i,
    {
        if a[i] != b[i] {
            return false;
        }
        i = i + 1;
    }
    assert(a@ =~= b@);
    true
}

/// A copy of a byte string.
pub fn copy_bytes(a: &Vec<u8>) -> (r: Vec<u8>)
    ensures
        r@ == a@,
{
    let mut r: Vec<u8> = Vec::new();
    let mut i: usize = 0;
    while i < a.len()
        invariant
            i <= a@.len(),
            r@ == a@.subrange(0, i as int),
        decreases a@.len() - i,
    {
        r.push(a[i]);
        i = i + 1;
        assert(r@ =~= a@.subrange(0, i as int));
    }
    assert(a@.subrange(0, a@.len() as int) =~= a@);
    r
}

impl SecretStore {
    /// The store's invariant: every identity is held once.
    pub open spec fn wf(&self) -> bool {
        unique_ids(self@)
    }

    /// An empty store.
    pub fn new() -> (r: SecretStore)
        ensures
            r@ == Seq::<EntryView>::empty(),
            r.wf(),
    {
        let r = SecretStore { entries: Vec::new() };
        assert(r@ =~= Seq::<EntryView>::empty());
        r
    }

    /// Whether every identity is held once.
    pub fn check_unique(&self) -> (r: bool)
        ensures
            r == self.wf(),
    {
        let mut i: usize = 0;
        while i < self.entries.len()
            invariant
                i <= self@.len(),
                self@.len() == self.entries@.len(),
                forall|a: int, b: int| 0 <= a < b < self@.len() && a < i ==> #[trigger] self@[a].0 != #[trigger] self@[b].0,
            decreases self.entries@.len() - i,
        {
            let mut j: usize = i + 1;
            while j < self.entries.len()
                invariant
                    i < self@.len(),
                    i < j <= self@.len(),
                    self@.len() == self.entries@.len(),
                    forall|a: int, b: int| 0 <= a < b < self@.len() && a < i ==> #[trigger] self@[a].0 != #[trigger] self@[b].0,
                    forall|b: int| i < b < j ==> self@[i as int].0 != #[trigger] self@[b].0,
                decreases self.entries@.len() - j,
            {
                if bytes_eq(&self.entries[i].id, &self.entries[j].id) {
                    assert(self@[i as int].0 == self@[j as int].0);
                    assert(!unique_ids(self@));
                    return false;
                }
                j = j + 1;
            }
            i = i + 1;
        }
        true
    }

    /// The position of `id`, if it is held.
    pub fn position(&self, id: &Vec<u8>) -> (r: Option<usize>)
        requires
            self.wf(),
        ensures
            r is Some <==> contains_id(self@, id@),
            r matches Some(i) ==> i == index_of(self@, id@) && i < self@.len(),
    {
        let mut i: usize = 0;
        while i < self.entries.len()
            invariant
                i <= self@.len(),
                self.wf(),
                self@.len() == self.entries@.len(),
                forall|k: int| 0 <= k < i ==> self@[k].0 != id@,
            decreases self.entries@.len() - i,
        {
            if bytes_eq(&self.entries[i].id, id) {
                assert(self@[i as int].0 == id@);
                let ghost j = index_of(self@, id@);
                assert(self@[j].0 == id@);
                assert(i == j) by {
                    if (i as int) < j {
                        assert(self@[i as int].0 != self@[j].0);
                    } else if j < (i as int) {
                        assert(self@[j].0 != self@[i as int].0);
                    }
                }
                return Some(i);
            }
            i = i + 1;
        }
        assert(!contains_id(self@, id@));
        None
    }

    /// Adds `id` as a passive secret, unless it is held already.
    pub fn insert_passive(&mut self, id: Vec<u8>, secret: Vec<u8>)
        requires
            old(self).wf(),
        ensures
            final(self).wf(),
            final(self)@ == with_passive(old(self)@, id@, secret@),
    {
        match self.position(&id) {
            Some(_) => {},
            None => {
                let ghost v = self@;
                self.entries.push(SecretEntry { id, secret, active: false });
                assert(self@ =~= v.push((id@, secret@, false)));
            },
        }
    }

    /// Flips the status of `id`; false, with nothing changed, where `id` is not held.
    pub fn toggle(&mut self, id: &Vec<u8>) -> (found: bool)
        requires
            old(self).wf(),
        ensures
            final(self).wf(),
            found == contains_id(old(self)@, id@),
            final(self)@ == toggled(old(self)@, id@),
            !found ==> *final(self) == *old(self),
    {
        let ghost v = self@;
        match self.position(id) {
            Some(i) => {
                let active = self.entries[i].active;
                let entry = SecretEntry { id: copy_bytes(&self.entries[i].id), secret: copy_bytes(&self.entries[i].secret), active: !active };
                self.entries.set(i, entry);
                assert forall|k: int| 0 <= k < v.len() implies #[trigger] self@[k] == toggled(v, id@)[k] by {
                    if k != i {
                        assert(v[k].0 != id@);
                    }
                }
                assert(self@ =~= toggled(v, id@));
                true
            },
            None => {
                assert forall|k: int| 0 <= k < v.len() implies #[trigger] toggled(v, id@)[k] == v[k] by {
                    assert(v[k].0 != id@);
                }
                assert(toggled(v, id@) =~= v);
                false
            },
        }
    }

    /// Sets `id` to `active` where it holds the other status; false, with nothing
    /// changed, where `id` is not held with the other status.
    pub fn set_status(&mut self, id: &Vec<u8>, active: bool) -> (found: bool)
        requires
            old(self).wf(),
        ensures
            final(self).wf(),
            found == holds_with_status(old(self)@, id@, !active),
            found ==> final(self)@ == with_status(old(self)@, id@, active),
            !found ==> *final(self) == *old(self),
    {
        match self.position(id) {
            Some(i) => {
                if self.entries[i].active == active {
                    return false;
                }
                let found = self.toggle(id);
                proof {
                    let v = old(self)@;
                    assert(toggled(v, id@) =~= with_status(v, id@, active)) by {
                        assert forall|k: int| 0 <= k < v.len() implies toggled(v, id@)[k] == #[trigger] with_status(v, id@, active)[k] by {
                            if v[k].0 == id@ {
                                assert(k == i) by {
                                    if k < i {
                                        assert(v[k].0 != v[i as int].0);
                                    } else if i < k {
                                        assert(v[i as int].0 != v[k].0);
                                    }
                                }
                            }
                        }
                    }
                }
                found
            },
            None => false,
        }
    }

    /// Removes `id` and hands back its secret; None, with nothing changed, where
    /// `id` is not held.
    pub fn remove(&mut self, id: &Vec<u8>) -> (r: Option<Vec<u8>>)
        requires
            old(self).wf(),
        ensures
            final(self).wf(),
            final(self)@ == without(old(self)@, id@),
            r is Some <==> contains_id(old(self)@, id@),
            r is None ==> *final(self) == *old(self),
            r matches Some(s) ==> s@ == old(self)@[index_of(old(self)@, id@)].1,
    {
        match self.position(id) {
            Some(i) => {
                let ghost v = self@;
                let entry = self.entries.remove(i);
                assert(self@ =~= v.remove(i as int));
                assert(unique_ids(self@)) by {
                    assert forall|a: int, b: int| 0 <= a < b < self@.len() implies #[trigger] self@[a].0 != #[trigger] self@[b].0 by {
                        let a2 = if a < i { a } else { a + 1 };
                        let b2 = if b < i { b } else { b + 1 };
                        assert(v[a2].0 != v[b2].0);
                    }
                }
                Some(entry.secret)
            },
            None => None,
        }
    }

    /// The secret of `id`, where `id` is held and active.
    pub fn active_secret(&self, id: &Vec<u8>) -> (r: Option<Vec<u8>>)
        requires
            self.wf(),
        ensures
            r matches Some(s) ==> active_secret(self@, id@) == Some(s@),
            r is None ==> active_secret(self@, id@) is None,
    {
        match self.position(id) {
            Some(i) => {
                if self.entries[i].active {
                    Some(copy_bytes(&self.entries[i].secret))
                } else {
                    None
                }
            },
            None => None,
        }
    }
}

} // verus!
