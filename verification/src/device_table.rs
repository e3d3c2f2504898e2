//! A table of devices keyed by their identity: at most one entry per
//! identity, the last registration of an identity wins.
use vstd::prelude::*;

use crate::model::{DeviceId, PeerDevice, PeerView};

verus! {

/// The abstract values of a sequence of devices.
pub open spec fn peer_views(s: Seq<PeerDevice>) -> Seq<PeerView> {
    s.map_values(|p: PeerDevice| p@)
}

/// No identity occurs twice in the sequence.
pub open spec fn ids_distinct(s: Seq<PeerView>) -> bool {
    forall|i: int, j: int|
        0 <= i < s.len() && 0 <= j < s.len() && i != j ==> #[trigger] s[i].id != #[trigger] s[j].id
}

/// The map from identity to display name that a sequence of devices
/// describes, later entries overriding earlier ones.
pub open spec fn peer_map(s: Seq<PeerView>) -> Map<Seq<char>, Seq<char>>
    decreases s.len(),
{
    if s.len() == 0 {
        Map::empty()
    } else {
        peer_map(s.drop_last()).insert(s.last().id, s.last().name)
    }
}

/// An identity is in the map of a sequence exactly when some entry has it.
pub proof fn lemma_peer_map_dom(s: Seq<PeerView>, k: Seq<char>)
    ensures
        peer_map(s).contains_key(k) <==> exists|i: int| 0 <= i < s.len() && #[trigger] s[i].id == k,
    decreases s.len(),
{
    if s.len() > 0 {
        lemma_peer_map_dom(s.drop_last(), k);
        if peer_map(s).contains_key(k) && k != s.last().id {
            let i = choose|i: int| 0 <= i < s.drop_last().len() && #[trigger] s.drop_last()[i].id == k;
            assert(s[i].id == k);
        }
        if exists|i: int| 0 <= i < s.len() && #[trigger] s[i].id == k {
            let i = choose|i: int| 0 <= i < s.len() && #[trigger] s[i].id == k;
            if i < s.len() - 1 {
                assert(s.drop_last()[i].id == k);
            }
        }
    }
}

/// With distinct identities, the map gives each entry's own name.
pub proof fn lemma_peer_map_value(s: Seq<PeerView>, i: int)
    requires
        ids_distinct(s),
        0 <= i < s.len(),
    ensures
        peer_map(s).contains_key(s[i].id),
        peer_map(s)[s[i].id] == s[i].name,
    decreases s.len(),
{
    if i < s.len() - 1 {
        assert(s.drop_last()[i] == s[i]);
        assert(ids_distinct(s.drop_last()));
        lemma_peer_map_value(s.drop_last(), i);
        assert(s[i].id != s.last().id);
    }
}

/// Two sequences with distinct identities describe the same map when they
/// hold the same identities with the same names.
pub proof fn lemma_peer_map_ext(s: Seq<PeerView>, m: Map<Seq<char>, Seq<char>>)
    requires
        ids_distinct(s),
        forall|k: Seq<char>| m.contains_key(k) <==> exists|i: int| 0 <= i < s.len() && #[trigger] s[i].id == k,
        forall|i: int| 0 <= i < s.len() ==> m.contains_key(#[trigger] s[i].id) && m[s[i].id] == s[i].name,
    ensures
        peer_map(s) == m,
{
    assert forall|k: Seq<char>| #[trigger] peer_map(s).contains_key(k) <==> m.contains_key(k) by {
        lemma_peer_map_dom(s, k);
    }
    assert forall|k: Seq<char>| #[trigger] peer_map(s).contains_key(k) implies peer_map(s)[k] == m[k] by {
        lemma_peer_map_dom(s, k);
        let i = choose|i: int| 0 <= i < s.len() && #[trigger] s[i].id == k;
        lemma_peer_map_value(s, i);
    }
    assert(peer_map(s) =~= m);
}

/// With distinct identities, the map has one entry per device.
pub proof fn lemma_peer_map_len(s: Seq<PeerView>)
    requires
        ids_distinct(s),
    ensures
        peer_map(s).dom().finite(),
        peer_map(s).len() == s.len(),
    decreases s.len(),
{
    if s.len() > 0 {
        let r = s.drop_last();
        assert(ids_distinct(r));
        lemma_peer_map_len(r);
        lemma_peer_map_dom(r, s.last().id);
        if peer_map(r).contains_key(s.last().id) {
            let i = choose|i: int| 0 <= i < r.len() && #[trigger] r[i].id == s.last().id;
            assert(s[i].id == s[s.len() - 1].id);
        }
        assert(peer_map(s).dom() == peer_map(r).dom().insert(s.last().id));
    }
}

/// The devices known by identity.
pub struct DeviceTable {
    entries: Vec<PeerDevice>,
}

impl View for DeviceTable {
    type V = Map<Seq<char>, Seq<char>>;

    closed spec fn view(&self) -> Map<Seq<char>, Seq<char>> {
        peer_map(peer_views(self.entries@))
    }
}

impl DeviceTable {
    #[verifier::type_invariant]
    closed spec fn entries_distinct(&self) -> bool {
        ids_distinct(peer_views(self.entries@))
    }

    /// An empty table.
    pub fn new() -> (out: Self)
        ensures
            out@ == Map::<Seq<char>, Seq<char>>::empty(),
    {
        let out = DeviceTable { entries: Vec::new() };
        assert(peer_views(out.entries@) =~= Seq::<PeerView>::empty());
        out
    }

    /// The position of the entry with identity `id`, if any.
    fn position(&self, id: &DeviceId) -> (out: Option<usize>)
        ensures
            match out {
                Some(i) => i < self.entries@.len() && self.entries@[i as int]@.id == id@,
                None => forall|i: int|
                    0 <= i < self.entries@.len() ==> #[trigger] self.entries@[i]@.id != id@,
            },
    {
        let mut i: usize = 0;
        while i < self.entries.len()
            invariant
                i <= self.entries@.len(),
                forall|j: int| 0 <= j < i ==> #[trigger] self.entries@[j]@.id != id@,
            decreases self.entries@.len() - i,
        {
            if self.entries[i].id.same_as(id) {
                return Some(i);
            }
            i = i + 1;
        }
        None
    }

    /// Whether a device with identity `id` is in the table.
    pub fn contains(&self, id: &DeviceId) -> (out: bool)
        ensures
            out == self@.contains_key(id@),
    {
        proof {
            lemma_peer_map_dom(peer_views(self.entries@), id@);
        }
        match self.position(id) {
            Some(i) => {
                assert(peer_views(self.entries@)[i as int].id == id@);
                true
            },
            None => {
                proof {
                    if self@.contains_key(id@) {
                        let i = choose|i: int|
                            0 <= i < peer_views(self.entries@).len() && #[trigger] peer_views(
                                self.entries@,
                            )[i].id == id@;
                        assert(self.entries@[i]@.id == id@);
                    }
                }
                false
            },
        }
    }

    /// Adds `device`, replacing the entry with the same identity if any.
    pub fn insert(&mut self, device: PeerDevice)
        ensures
            final(self)@ == old(self)@.insert(device@.id, device@.name),
    {
        proof {
            use_type_invariant(&*self);
            lemma_peer_map_dom(peer_views(self.entries@), device@.id);
        }
        let ghost old_views = peer_views(self.entries@);
        let ghost dv = device@;
        let pos = self.position(&device.id);
        let mut entries: Vec<PeerDevice> = Vec::new();
        std::mem::swap(&mut entries, &mut self.entries);
        assert(peer_views(entries@) == old_views);
        match pos {
            Some(i) => {
                entries[i] = device;
                proof {
                    assert(old_views[i as int].id == dv.id);
                    let new_views = peer_views(entries@);
                    assert(new_views =~= old_views.update(i as int, dv));
                    assert forall|a: int, b: int|
                        0 <= a < new_views.len() && 0 <= b < new_views.len() && a != b
                        implies #[trigger] new_views[a].id != #[trigger] new_views[b].id by {
                        assert(new_views[a].id == old_views[a].id);
                        assert(new_views[b].id == old_views[b].id);
                    }
                    let m = peer_map(old_views).insert(dv.id, dv.name);
                    assert forall|k: Seq<char>|
                        #[trigger] m.contains_key(k) <==> exists|j: int|
                            0 <= j < new_views.len() && #[trigger] new_views[j].id == k by {
                        lemma_peer_map_dom(old_views, k);
                        if k == dv.id {
                            assert(new_views[i as int].id == k);
                        } else if peer_map(old_views).contains_key(k) {
                            let j = choose|j: int| 0 <= j < old_views.len() && #[trigger] old_views[j].id == k;
                            assert(new_views[j].id == k);
                        } else {
                            if exists|j: int| 0 <= j < new_views.len() && #[trigger] new_views[j].id == k {
                                let j = choose|j: int| 0 <= j < new_views.len() && #[trigger] new_views[j].id == k;
                                assert(old_views[j].id == k);
                            }
                        }
                    }
                    assert forall|j: int| 0 <= j < new_views.len() implies m.contains_key(
                        #[trigger] new_views[j].id,
                    ) && m[new_views[j].id] == new_views[j].name by {
                        if j != i {
                            lemma_peer_map_value(old_views, j);
                            assert(old_views[j].id != old_views[i as int].id);
                        }
                    }
                    lemma_peer_map_ext(new_views, m);
                }
                self.entries = entries;
            },
            None => {
                entries.push(device);
                proof {
                    let new_views = peer_views(entries@);
                    assert(new_views =~= old_views.push(dv));
                    assert(new_views.drop_last() =~= old_views);
                    assert forall|a: int, b: int|
                        0 <= a < new_views.len() && 0 <= b < new_views.len() && a != b
                        implies #[trigger] new_views[a].id != #[trigger] new_views[b].id by {
                        if a < old_views.len() && b < old_views.len() {
                            assert(old_views[a].id != old_views[b].id);
                        } else if a < old_views.len() {
                            assert(old_views[a].id != dv.id);
                        } else {
                            assert(old_views[b].id != dv.id);
                        }
                    }
                }
                self.entries = entries;
            },
        }
    }

    /// Removes the device with identity `id`; whether one was there comes
    /// back.
    pub fn remove(&mut self, id: &DeviceId) -> (removed: bool)
        ensures
            removed == old(self)@.contains_key(id@),
            final(self)@ == old(self)@.remove(id@),
    {
        proof {
            use_type_invariant(&*self);
            lemma_peer_map_dom(peer_views(self.entries@), id@);
        }
        let ghost old_views = peer_views(self.entries@);
        match self.position(id) {
            Some(i) => {
                let mut entries: Vec<PeerDevice> = Vec::new();
                std::mem::swap(&mut entries, &mut self.entries);
                entries.remove(i);
                proof {
                    let new_views = peer_views(entries@);
                    assert(new_views =~= old_views.remove(i as int));
                    assert(old_views[i as int].id == id@);
                    assert(ids_distinct(new_views)) by {
                        assert forall|a: int, b: int|
                            0 <= a < new_views.len() && 0 <= b < new_views.len() && a != b
                            implies #[trigger] new_views[a].id != #[trigger] new_views[b].id by {
                            let oa = if a < i { a } else { a + 1 };
                            let ob = if b < i { b } else { b + 1 };
                            assert(new_views[a] == old_views[oa]);
                            assert(new_views[b] == old_views[ob]);
                        }
                    }
                    let m = peer_map(old_views).remove(id@);
                    assert forall|k: Seq<char>|
                        #[trigger] m.contains_key(k) <==> exists|j: int| 0 <= j < new_views.len() && #[trigger] new_views[j].id == k by {
                        lemma_peer_map_dom(old_views, k);
                        if m.contains_key(k) {
                            let j = choose|j: int| 0 <= j < old_views.len() && #[trigger] old_views[j].id == k;
                            assert(j != i);
                            let nj = if j < i { j } else { j - 1 };
                            assert(new_views[nj].id == k);
                        }
                        if exists|j: int| 0 <= j < new_views.len() && #[trigger] new_views[j].id == k {
                            let j = choose|j: int| 0 <= j < new_views.len() && #[trigger] new_views[j].id == k;
                            let oj = if j < i { j } else { j + 1 };
                            assert(old_views[oj].id == k);
                            assert(oj != i);
                        }
                    }
                    assert forall|j: int| 0 <= j < new_views.len() implies m.contains_key(#[trigger] new_views[j].id)
                        && m[new_views[j].id] == new_views[j].name by {
                        let oj = if j < i { j } else { j + 1 };
                        assert(new_views[j] == old_views[oj]);
                        lemma_peer_map_value(old_views, oj);
                        assert(old_views[oj].id != old_views[i as int].id);
                    }
                    lemma_peer_map_ext(new_views, m);
                }
                self.entries = entries;
                true
            },
            None => {
                proof {
                    if peer_map(old_views).contains_key(id@) {
                        let j = choose|j: int| 0 <= j < old_views.len() && #[trigger] old_views[j].id == id@;
                        assert(self.entries@[j]@.id == id@);
                    }
                    assert(peer_map(old_views).remove(id@) =~= peer_map(old_views));
                }
                false
            },
        }
    }

    /// Removes every device.
    pub fn clear(&mut self)
        ensures
            final(self)@ == Map::<Seq<char>, Seq<char>>::empty(),
    {
        self.entries = Vec::new();
        assert(peer_views(self.entries@) =~= Seq::<PeerView>::empty());
    }

    /// The devices, each once, in no particular order.
    pub fn devices(&self) -> (out: Vec<PeerDevice>)
        ensures
            ids_distinct(peer_views(out@)),
            peer_map(peer_views(out@)) == self@,
            out@.len() == self@.len(),
    {
        proof {
            use_type_invariant(self);
        }
        let mut out: Vec<PeerDevice> = Vec::new();
        let mut i: usize = 0;
        while i < self.entries.len()
            invariant
                i <= self.entries@.len(),
                out@.len() == i,
                forall|j: int| 0 <= j < i ==> #[trigger] out@[j]@ == self.entries@[j]@,
            decreases self.entries@.len() - i,
        {
            out.push(self.entries[i].clone());
            i = i + 1;
        }
        assert(peer_views(out@) =~= peer_views(self.entries@));
        proof {
            lemma_peer_map_len(peer_views(self.entries@));
        }
        out
    }
}

} // verus!
