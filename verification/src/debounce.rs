//! When each site, worker and rule last fired.

use std::collections::HashMap;
use vstd::prelude::*;

use crate::ids::Uuid;
use crate::rules::{DebounceKey, RuleType};
use crate::time::Timestamp;

verus! {

/// The last firing of one worker and rule at a site.
struct Firing {
    worker_id: Option<Uuid>,
    rule_type: RuleType,
    at: Timestamp,
}

impl Firing {
    spec fn is_for(self, key: DebounceKey) -> bool {
        self.worker_id == key.worker_id && self.rule_type == key.rule_type
    }
}

/// Last firing times, one for each key, gathered by site.
pub struct FiringLog {
    sites: HashMap<u128, Vec<Firing>>,
}

/// Whether the firings of one site hold one for `key` at place `i`.
spec fn found_at(firings: Seq<Firing>, key: DebounceKey, i: int) -> bool {
    0 <= i < firings.len() && firings[i].is_for(key)
}

spec fn found(firings: Seq<Firing>, key: DebounceKey) -> bool {
    exists|i: int| found_at(firings, key, i)
}

spec fn place(firings: Seq<Firing>, key: DebounceKey) -> int {
    choose|i: int| found_at(firings, key, i)
}

/// No worker and rule occurs twice among the firings of one site.
spec fn distinct(firings: Seq<Firing>) -> bool {
    forall|i: int, j: int|
        0 <= i < j < firings.len() ==> !(#[trigger] firings[i].worker_id
            == #[trigger] firings[j].worker_id && firings[i].rule_type == firings[j].rule_type)
}

/// With distinct firings, the place of a key is the only one.
proof fn lemma_place(firings: Seq<Firing>, key: DebounceKey, i: int)
    requires
        distinct(firings),
        found_at(firings, key, i),
    ensures
        found(firings, key),
        place(firings, key) == i,
{
    let j = place(firings, key);
    assert(found_at(firings, key, j));
    if i < j {
        assert(firings[i].worker_id == firings[j].worker_id);
    } else if j < i {
        assert(firings[j].worker_id == firings[i].worker_id);
    }
}

/// Firings after one for `key` has been put in the place of an older one or, without an older
/// one, at the end: `key` has the new time and every other key has what it had.
proof fn lemma_recorded(before: Seq<Firing>, after: Seq<Firing>, key: DebounceKey, firing: Firing, i: int)
    requires
        distinct(before),
        firing.is_for(key),
        found(before, key) ==> found_at(before, key, i) && after == before.update(i, firing),
        !found(before, key) ==> i == before.len() && after == before.push(firing),
    ensures
        distinct(after),
        found(after, key),
        after[place(after, key)] == firing,
        forall|k: DebounceKey|
            !firing.is_for(k) ==> #[trigger] found(after, k) == found(before, k),
        forall|k: DebounceKey|
            !firing.is_for(k) && found(before, k) ==> #[trigger] after[place(after, k)]
                == before[place(before, k)],
{
    assert forall|a: int, b: int| 0 <= a < b < after.len() implies !(#[trigger] after[a].worker_id
        == #[trigger] after[b].worker_id && after[a].rule_type == after[b].rule_type) by {
        if after[a].worker_id == after[b].worker_id && after[a].rule_type == after[b].rule_type {
            if found(before, key) {
                assert(before[a].worker_id == before[b].worker_id);
            } else if b < before.len() {
                assert(before[a].worker_id == before[b].worker_id);
            } else {
                assert(found_at(before, key, a));
            }
        }
    }
    assert(found_at(after, key, i));
    lemma_place(after, key, i);
    assert forall|k: DebounceKey| !firing.is_for(k) implies #[trigger] found(after, k) == found(
        before,
        k,
    ) by {
        if found(after, k) {
            assert(found_at(before, k, place(after, k)));
        }
        if found(before, k) {
            assert(found_at(after, k, place(before, k)));
        }
    }
    assert forall|k: DebounceKey| !firing.is_for(k) && found(before, k) implies
        #[trigger] after[place(after, k)] == before[place(before, k)] by {
        let j = place(before, k);
        assert(found_at(before, k, j));
        assert(found_at(after, k, j));
        lemma_place(after, k, j);
    }
}

/// Whether two optional identifiers are the same.
fn same_worker(a: Option<Uuid>, b: Option<Uuid>) -> (same: bool)
    ensures
        same == (a == b),
{
    match (a, b) {
        (Some(x), Some(y)) => x.bits == y.bits,
        (None, None) => true,
        _ => false,
    }
}

/// The place of `key` among the firings of its site.
fn find(firings: &Vec<Firing>, key: &DebounceKey) -> (at: Option<usize>)
    ensures
        match at {
            Some(i) => found_at(firings@, *key, i as int),
            None => !found(firings@, *key),
        },
{
    let mut i: usize = 0;
    while i < firings.len()
        invariant
            i <= firings.len(),
            forall|j: int| 0 <= j < i ==> !found_at(firings@, *key, j),
        decreases firings.len() - i,
    {
        if same_worker(firings[i].worker_id, key.worker_id) && firings[i].rule_type
            == key.rule_type {
            return Some(i);
        }
        i = i + 1;
    }
    None
}

impl FiringLog {
    /// No key has two firing times.
    pub closed spec fn wf(self) -> bool {
        forall|site: u128| #[trigger]
            self.sites@.contains_key(site) ==> distinct(self.sites@[site]@)
    }

    spec fn holds(self, key: DebounceKey) -> bool {
        self.sites@.contains_key(key.site_id.bits) && found(self.sites@[key.site_id.bits]@, key)
    }

    spec fn time_of(self, key: DebounceKey) -> Timestamp {
        let firings = self.sites@[key.site_id.bits]@;
        firings[place(firings, key)].at
    }

    /// The log without any firing.
    pub fn new() -> (log: FiringLog)
        ensures
            log.wf(),
            log@ == Map::<DebounceKey, Timestamp>::empty(),
    {
        let log = FiringLog { sites: HashMap::new() };
        assert(log@ =~= Map::<DebounceKey, Timestamp>::empty());
        log
    }

    /// When `key` last fired.
    pub fn last(&self, key: &DebounceKey) -> (at: Option<Timestamp>)
        requires
            self.wf(),
        ensures
            at == (if self@.contains_key(*key) {
                Some(self@[*key])
            } else {
                None
            }),
    {
        match self.sites.get(&key.site_id.bits) {
            None => None,
            Some(firings) => match find(firings, key) {
                None => None,
                Some(i) => Some(firings[i].at),
            },
        }
    }

    /// Notes that `key` fired at `at`.
    pub fn record(&mut self, key: DebounceKey, at: Timestamp)
        requires
            old(self).wf(),
        ensures
            final(self).wf(),
            final(self)@ == old(self)@.insert(key, at),
    {
        let ghost before = *self;
        let site: u128 = key.site_id.bits;
        let mut firings: Vec<Firing> = match self.sites.remove(&site) {
            Some(firings) => firings,
            None => Vec::new(),
        };
        let ghost old_firings = firings@;
        let firing = Firing { worker_id: key.worker_id, rule_type: key.rule_type, at };
        match find(&firings, &key) {
            Some(i) => {
                firings.set(i, firing);
                proof {
                    lemma_recorded(old_firings, firings@, key, firing, i as int);
                }
            },
            None => {
                firings.push(firing);
                proof {
                    lemma_recorded(old_firings, firings@, key, firing, old_firings.len() as int);
                }
            },
        }
        let ghost new_firings = firings@;
        self.sites.insert(site, firings);
        proof {
            assert(self.sites@ =~= before.sites@.insert(site, firings));
            assert forall|k: DebounceKey| self.holds(k) == before@.insert(key, at).contains_key(k) by {
                if k.site_id.bits == site && !firing.is_for(k) {
                    assert(found(new_firings, k) == found(old_firings, k));
                }
                assert(k.site_id.bits == site ==> k.site_id == key.site_id);
            }
            assert forall|k: DebounceKey| self.holds(k) implies self.time_of(k)
                == before@.insert(key, at)[k] by {
                assert(k.site_id.bits == site ==> k.site_id == key.site_id);
                if k.site_id.bits == site && !firing.is_for(k) {
                    assert(found(new_firings, k) == found(old_firings, k));
                    assert(new_firings[place(new_firings, k)] == old_firings[place(
                        old_firings,
                        k,
                    )]);
                }
            }
            assert(self@ =~= before@.insert(key, at));
        }
    }
}

impl View for FiringLog {
    type V = Map<DebounceKey, Timestamp>;

    closed spec fn view(&self) -> Map<DebounceKey, Timestamp> {
        Map::new(|key: DebounceKey| self.holds(key), |key: DebounceKey| self.time_of(key))
    }
}

} // verus!
