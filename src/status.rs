use vstd::prelude::*;
use crate::device::DeviceControl;

verus! {

/// Whether `id` is the key of some entry of `s`.
pub open spec fn has_key(s: Seq<(u64, DeviceControl)>, id: u64) -> bool {
    exists|i: int| 0 <= i < s.len() && s[i].0 == id
}

/// Entries with pairwise distinct keys.
pub open spec fn keys_unique(s: Seq<(u64, DeviceControl)>) -> bool {
    forall|i: int, j: int| 0 <= i < s.len() && 0 <= j < s.len() && s[i].0 == s[j].0 ==> i == j
}

/// The map that entries with distinct keys describe.
pub open spec fn as_map(s: Seq<(u64, DeviceControl)>) -> Map<u64, DeviceControl> {
    Map::new(
        |id: u64| has_key(s, id),
        |id: u64| s[choose|i: int| 0 <= i < s.len() && s[i].0 == id].1,
    )
}

/// Per-device control status, as reported to status readers.
pub struct DeviceStatus {
    entries: Vec<(u64, DeviceControl)>,
}

impl DeviceStatus {
    pub closed spec fn entries_spec(&self) -> Seq<(u64, DeviceControl)> {
        self.entries@
    }

    /// The status of each known device.
    pub open spec fn view(&self) -> Map<u64, DeviceControl> {
        as_map(self.entries_spec())
    }

    pub open spec fn wf(&self) -> bool {
        keys_unique(self.entries_spec())
    }

    pub fn new() -> (r: DeviceStatus)
        ensures
            r.wf(),
            r.view() == Map::<u64, DeviceControl>::empty(),
    {
        let r = DeviceStatus { entries: Vec::new() };
        assert(r.view() =~= Map::<u64, DeviceControl>::empty());
        r
    }

    /// Number of known devices.
    pub fn len(&self) -> (r: usize)
        requires
            self.wf(),
        ensures
            r == self.view().len(),
    {
        proof {
            lemma_map_len(self.entries_spec());
        }
        self.entries.len()
    }

    fn find(&self, id: u64) -> (r: Option<usize>)
        requires
            self.wf(),
        ensures
            r is None ==> !has_key(self.entries_spec(), id),
            r matches Some(k) ==> k < self.entries_spec().len() && self.entries_spec()[k as int].0
                == id,
    {
        let mut k: usize = 0;
        while k < self.entries.len()
            invariant
                k <= self.entries@.len(),
                forall|i: int| 0 <= i < k ==> self.entries@[i].0 != id,
            decreases self.entries@.len() - k,
        {
            if self.entries[k].0 == id {
                return Some(k);
            }
            k = k + 1;
        }
        None
    }

    /// The status of a device, if it is known.
    pub fn get(&self, id: u64) -> (r: Option<DeviceControl>)
        requires
            self.wf(),
        ensures
            r == (if self.view().contains_key(id) {
                Some(self.view()[id])
            } else {
                None
            }),
    {
        match self.find(id) {
            Some(k) => Some(self.entries[k].1),
            None => None,
        }
    }

    /// Sets the status of a device, replacing any earlier one.
    pub fn insert(&mut self, id: u64, control: DeviceControl)
        requires
            old(self).wf(),
        ensures
            final(self).wf(),
            final(self).view() == old(self).view().insert(id, control),
    {
        let ghost s = self.entries@;
        match self.find(id) {
            Some(k) => {
                self.entries.set(k, (id, control));
                let ghost t = self.entries@;
                assert forall|e: u64| has_key(t, e) == has_key(s, e) by {
                    if has_key(s, e) {
                        let i = choose|i: int| 0 <= i < s.len() && s[i].0 == e;
                        assert(t[i].0 == e);
                    }
                    if has_key(t, e) {
                        let i = choose|i: int| 0 <= i < t.len() && t[i].0 == e;
                        assert(s[i].0 == e);
                    }
                }
                assert(as_map(t) =~= as_map(s).insert(id, control));
            },
            None => {
                self.entries.push((id, control));
                let ghost t = self.entries@;
                assert(t[s.len() as int].0 == id);
                assert forall|e: u64| has_key(t, e) == (has_key(s, e) || e == id) by {
                    if has_key(s, e) {
                        let i = choose|i: int| 0 <= i < s.len() && s[i].0 == e;
                        assert(t[i].0 == e);
                    }
                    if has_key(t, e) && e != id {
                        let i = choose|i: int| 0 <= i < t.len() && t[i].0 == e;
                        assert(s[i].0 == e);
                    }
                }
                assert forall|e: u64| e != id && has_key(s, e) implies as_map(t)[e] == as_map(s)[e] by {
                    let i = choose|i: int| 0 <= i < t.len() && t[i].0 == e;
                    let j = choose|j: int| 0 <= j < s.len() && s[j].0 == e;
                    assert(t[j].0 == e);
                    assert(i == j);
                }
                assert(as_map(t) =~= as_map(s).insert(id, control));
            },
        }
    }

    /// The devices whose status says they are running, in entry order.
    pub fn running_devices(&self) -> (r: Vec<u64>)
        requires
            self.wf(),
        ensures
            forall|id: u64|
                r@.contains(id) <==> (self.view().contains_key(id) && self.view()[id].is_running),
    {
        let mut r: Vec<u64> = Vec::new();
        let mut k: usize = 0;
        let ghost s = self.entries@;
        while k < self.entries.len()
            invariant
                s == self.entries@,
                k <= s.len(),
                forall|id: u64| r@.contains(id) <==> has_running(s.subrange(0, k as int), id),
            decreases s.len() - k,
        {
            let e = self.entries[k];
            let ghost r0 = r@;
            if e.1.is_running {
                r.push(e.0);
            }
            assert(s.subrange(0, k as int + 1) =~= s.subrange(0, k as int).push(e));
            assert forall|id: u64| r@.contains(id) <==> has_running(s.subrange(0, k as int + 1), id) by {
                lemma_has_running_push(s.subrange(0, k as int), e, id);
                if e.1.is_running {
                    lemma_push_contains(r0, e.0, id);
                }
            }
            k = k + 1;
        }
        assert(s.subrange(0, s.len() as int) =~= s);
        assert forall|id: u64| has_running(s, id) <==> (self.view().contains_key(id) && self.view()[id].is_running) by {
            if has_running(s, id) {
                let i = choose|i: int| 0 <= i < s.len() && s[i].0 == id && s[i].1.is_running;
                let j = choose|j: int| 0 <= j < s.len() && s[j].0 == id;
                assert(i == j);
            }
        }
        r
    }
}

/// Whether `s` holds an entry for `id` that is running.
pub open spec fn has_running(s: Seq<(u64, DeviceControl)>, id: u64) -> bool {
    exists|i: int| 0 <= i < s.len() && s[i].0 == id && s[i].1.is_running
}

proof fn lemma_has_running_push(s: Seq<(u64, DeviceControl)>, e: (u64, DeviceControl), id: u64)
    ensures
        has_running(s.push(e), id) <==> (has_running(s, id) || (e.0 == id && e.1.is_running)),
{
    let t = s.push(e);
    if has_running(s, id) {
        let i = choose|i: int| 0 <= i < s.len() && s[i].0 == id && s[i].1.is_running;
        assert(t[i] == s[i]);
    }
    if e.0 == id && e.1.is_running {
        assert(t[s.len() as int] == e);
    }
    if has_running(t, id) && !(e.0 == id && e.1.is_running) {
        let i = choose|i: int| 0 <= i < t.len() && t[i].0 == id && t[i].1.is_running;
        assert(i < s.len());
        assert(s[i] == t[i]);
    }
}

proof fn lemma_push_contains(s: Seq<u64>, x: u64, y: u64)
    ensures
        s.push(x).contains(y) <==> (s.contains(y) || x == y),
{
    let t = s.push(x);
    if s.contains(y) {
        let i = choose|i: int| 0 <= i < s.len() && s[i] == y;
        assert(t[i] == y);
    }
    if x == y {
        assert(t[s.len() as int] == y);
    }
    if t.contains(y) && x != y {
        let i = choose|i: int| 0 <= i < t.len() && t[i] == y;
        assert(s[i] == y);
    }
}

proof fn lemma_map_len(s: Seq<(u64, DeviceControl)>)
    requires
        keys_unique(s),
    ensures
        as_map(s).len() == s.len(),
        as_map(s).dom().finite(),
    decreases s.len(),
{
    let m = as_map(s);
    let keys = s.map_values(|e: (u64, DeviceControl)| e.0);
    assert(m.dom() =~= keys.to_set()) by {
        assert forall|id: u64| m.dom().contains(id) <==> keys.to_set().contains(id) by {
            if m.dom().contains(id) {
                let i = choose|i: int| 0 <= i < s.len() && s[i].0 == id;
                assert(keys[i] == id);
            }
            if keys.to_set().contains(id) {
                let i = choose|i: int| 0 <= i < keys.len() && keys[i] == id;
                assert(s[i].0 == id);
            }
        }
    }
    assert(keys.no_duplicates());
    keys.unique_seq_to_set();
}

/// Status of the devices at start-up: every listed device is known and
/// stopped, and each selected device is known and running.
pub fn initial_device_status(all: &Vec<u64>, selected: &Vec<u64>) -> (r: DeviceStatus)
    ensures
        r.wf(),
        forall|id: u64|
            r.view().contains_key(id) <==> (all@.contains(id) || selected@.contains(id)),
        forall|id: u64|
            #![trigger r.view()[id]]
            r.view().contains_key(id) ==> r.view()[id] == (DeviceControl {
                is_running: selected@.contains(id),
                is_paused: false,
            }),
{
    let mut r = DeviceStatus::new();
    let mut k: usize = 0;
    while k < all.len()
        invariant
            k <= all@.len(),
            r.wf(),
            forall|id: u64| r.view().contains_key(id) <==> all@.subrange(0, k as int).contains(id),
            forall|id: u64|
                #![trigger r.view()[id]]
                r.view().contains_key(id) ==> r.view()[id] == DeviceControl::inactive_spec(),
        decreases all@.len() - k,
    {
        let ghost m0 = r.view();
        let ghost pre = all@.subrange(0, k as int);
        let ghost x = all@[k as int];
        r.insert(all[k], DeviceControl::inactive());
        proof {
            assert(all@.subrange(0, k as int + 1) =~= pre.push(x));
            assert forall|id: u64| r.view().contains_key(id) <==> all@.subrange(0, k as int + 1).contains(id) by {
                lemma_push_contains(pre, x, id);
                assert(m0.contains_key(id) <==> pre.contains(id));
            }
            assert forall|id: u64| r.view().contains_key(id) implies #[trigger] r.view()[id] == DeviceControl::inactive_spec() by {
                if id != x {
                    assert(m0.contains_key(id));
                    assert(m0[id] == DeviceControl::inactive_spec());
                }
            }
        }
        k = k + 1;
    }
    assert(all@.subrange(0, all@.len() as int) =~= all@);
    assert(selected@.subrange(0, 0) =~= Seq::<u64>::empty());
    let mut k: usize = 0;
    while k < selected.len()
        invariant
            k <= selected@.len(),
            r.wf(),
            forall|id: u64|
                #![trigger r.view().contains_key(id)]
                r.view().contains_key(id) <==> (all@.contains(id) || selected@.subrange(
                    0,
                    k as int,
                ).contains(id)),
            forall|id: u64|
                #![trigger r.view()[id]]
                r.view().contains_key(id) ==> r.view()[id] == (DeviceControl {
                    is_running: selected@.subrange(0, k as int).contains(id),
                    is_paused: false,
                }),
        decreases selected@.len() - k,
    {
        let ghost m0 = r.view();
        let ghost pre = selected@.subrange(0, k as int);
        let ghost x = selected@[k as int];
        r.insert(selected[k], DeviceControl::active());
        proof {
            assert(selected@.subrange(0, k as int + 1) =~= pre.push(x));
            assert forall|id: u64| r.view().contains_key(id) <==> (all@.contains(id) || selected@.subrange(0, k as int + 1).contains(id)) by {
                lemma_push_contains(pre, x, id);
                assert(m0.contains_key(id) <==> (all@.contains(id) || pre.contains(id)));
            }
            assert forall|id: u64| r.view().contains_key(id) implies #[trigger] r.view()[id] == (DeviceControl {
                    is_running: selected@.subrange(0, k as int + 1).contains(id),
                    is_paused: false,
                }) by {
                lemma_push_contains(pre, x, id);
                if id != x {
                    assert(m0.contains_key(id));
                    assert(m0[id].is_running == pre.contains(id));
                }
            }
        }
        k = k + 1;
    }
    assert(selected@.subrange(0, selected@.len() as int) =~= selected@);
    r
}

} // verus!
