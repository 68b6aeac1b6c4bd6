//! The state cache: the console's faders, one per fader index, and its desk
//! information, held in slabs and read out as snapshots.
use slab::Slab;
use vstd::prelude::*;

use crate::model::{default_fader, is_zero_desk_info, DeskInfo, Fader, FaderView, DB};

verus! {

#[verifier::external_type_specification]
#[verifier::external_body]
#[verifier::reject_recursive_types(T)]
pub struct ExSlab<T>(Slab<T>);

/// The faders that a slab holds, by slab key.
pub uninterp spec fn slab_faders(s: Slab<Fader>) -> Map<usize, Fader>;

/// The desk information entries that a slab holds, by slab key.
pub uninterp spec fn slab_desk_infos(s: Slab<DeskInfo>) -> Map<usize, DeskInfo>;

/// Relies on `Slab::new`: a slab with no entries.
#[verifier::external_body]
fn fader_slab() -> (r: Slab<Fader>)
    ensures
        slab_faders(r).dom() == Set::<usize>::empty(),
{
    Slab::new()
}

/// Relies on `Slab::iter`: it visits each occupied entry once, in ascending
/// order of key; only the keys are kept.
#[verifier::external_body]
fn fader_keys(s: &Slab<Fader>) -> (r: Vec<usize>)
    ensures
        r@.to_set() == slab_faders(*s).dom(),
        forall|a: int, b: int| 0 <= a < b < r@.len() ==> r@[a] < r@[b],
{
    s.iter().map(|(key, _)| key).collect()
}

/// Relies on `Slab::get`: the entry under `key`, if that key is occupied.
#[verifier::external_body]
fn fader_get(s: &Slab<Fader>, key: usize) -> (r: Option<&Fader>)
    ensures
        r is Some <==> slab_faders(*s).contains_key(key),
        r matches Some(f) ==> *f == slab_faders(*s)[key],
{
    s.get(key)
}

/// Relies on `Slab::insert`: the value goes under a key that was vacant,
/// which is returned.
#[verifier::external_body]
fn fader_insert(s: &mut Slab<Fader>, value: Fader) -> (key: usize)
    ensures
        !slab_faders(*old(s)).contains_key(key),
        slab_faders(*final(s)) == slab_faders(*old(s)).insert(key, value),
{
    s.insert(value)
}

/// Relies on `Slab::remove`: the entry under `key` is taken out and returned;
/// it panics on a vacant key, which `requires` rules out.
#[verifier::external_body]
fn fader_remove(s: &mut Slab<Fader>, key: usize) -> (r: Fader)
    requires
        slab_faders(*old(s)).contains_key(key),
    ensures
        r == slab_faders(*old(s))[key],
        slab_faders(*final(s)) == slab_faders(*old(s)).remove(key),
{
    s.remove(key)
}

/// Relies on `Slab::new`: a slab with no entries.
#[verifier::external_body]
fn desk_info_slab() -> (r: Slab<DeskInfo>)
    ensures
        slab_desk_infos(r).dom() == Set::<usize>::empty(),
{
    Slab::new()
}

/// Relies on `Slab::clear`: every entry is removed.
#[verifier::external_body]
fn desk_info_clear(s: &mut Slab<DeskInfo>)
    ensures
        slab_desk_infos(*final(s)).dom() == Set::<usize>::empty(),
{
    s.clear()
}

/// Relies on `Slab::insert`: the value goes under a key that was vacant,
/// which is returned.
#[verifier::external_body]
fn desk_info_insert(s: &mut Slab<DeskInfo>, value: DeskInfo) -> (key: usize)
    ensures
        !slab_desk_infos(*old(s)).contains_key(key),
        slab_desk_infos(*final(s)) == slab_desk_infos(*old(s)).insert(key, value),
{
    s.insert(value)
}

/// Relies on `Slab::iter`: its first item is an occupied entry, and there is
/// one exactly when the slab is not empty.
#[verifier::external_body]
fn desk_info_first(s: &Slab<DeskInfo>) -> (r: Option<&DeskInfo>)
    ensures
        r is None <==> slab_desk_infos(*s).dom() == Set::<usize>::empty(),
        r matches Some(d) ==> exists|k: usize|
            slab_desk_infos(*s).contains_key(k) && #[trigger] slab_desk_infos(*s)[k] == *d,
{
    s.iter().next().map(|(_, info)| info)
}

/// Looking up a fader, creating a default one where there is none: the
/// faders afterwards and the fader returned.
pub open spec fn get_or_create_spec(m: Map<u16, FaderView>, index: u16) -> (Map<u16, FaderView>, FaderView) {
    if m.contains_key(index) {
        (m, m[index])
    } else {
        (m.insert(index, default_fader(index)), default_fader(index))
    }
}

/// The faders in strictly ascending order of index.
pub open spec fn sorted_by_index(s: Seq<Fader>) -> bool {
    forall|a: int, b: int| 0 <= a < b < s.len() ==> s[a].index < s[b].index
}

/// `s` lists the faders of `m`, each once, in ascending order of index.
pub open spec fn lists_faders(s: Seq<Fader>, m: Map<u16, FaderView>) -> bool {
    &&& sorted_by_index(s)
    &&& forall|j: int| 0 <= j < s.len() ==> m.contains_key(#[trigger] s[j].index) && m[s[j].index] == s[j]@
    &&& forall|i: u16| #[trigger] m.contains_key(i) ==> exists|j: int| 0 <= j < s.len() && s[j].index == i
}

/// `db` is a snapshot of these faders and this desk information, the zero
/// one where none has been received.
pub open spec fn is_snapshot(db: DB, faders: Map<u16, FaderView>, desk_info: Option<DeskInfo>) -> bool {
    &&& lists_faders(db.faders@, faders)
    &&& match desk_info {
        Some(d) => db.deskInfo == d,
        None => is_zero_desk_info(db.deskInfo),
    }
}

/// The faders and the desk information received from the console.
pub struct StateCache {
    faders: Slab<Fader>,
    slots: Ghost<Map<u16, usize>>,
    desk_info: Slab<DeskInfo>,
    desk_slot: Ghost<Option<usize>>,
}

impl StateCache {
    /// Each fader index has one slab entry, and the desk slab at most one.
    pub closed spec fn wf(&self) -> bool {
        let m = slab_faders(self.faders);
        let d = slab_desk_infos(self.desk_info);
        &&& forall|i: u16| #[trigger] self.slots@.contains_key(i) ==> {
            &&& m.contains_key(self.slots@[i])
            &&& m[self.slots@[i]].index == i
        }
        &&& forall|k: usize| #[trigger] m.contains_key(k) ==> {
            &&& self.slots@.contains_key(m[k].index)
            &&& self.slots@[m[k].index] == k
        }
        &&& match self.desk_slot@ {
            None => d.dom() == Set::<usize>::empty(),
            Some(k) => d.dom() == set![k],
        }
    }

    /// The cached faders, by fader index.
    pub closed spec fn faders_view(&self) -> Map<u16, FaderView> {
        Map::new(
            |i: u16| self.slots@.contains_key(i),
            |i: u16| slab_faders(self.faders)[self.slots@[i]]@,
        )
    }

    /// The cached desk information, once some has been received.
    pub closed spec fn desk_info_view(&self) -> Option<DeskInfo> {
        match self.desk_slot@ {
            Some(k) => Some(slab_desk_infos(self.desk_info)[k]),
            None => None,
        }
    }

    /// The cached faders by slab entry.
    pub closed spec fn entries(&self) -> Map<usize, Fader> {
        slab_faders(self.faders)
    }

    pub fn new() -> (r: StateCache)
        ensures
            r.wf(),
            r.faders_view() == Map::<u16, FaderView>::empty(),
            r.desk_info_view() is None,
    {
        let r = StateCache {
            faders: fader_slab(),
            slots: Ghost(Map::empty()),
            desk_info: desk_info_slab(),
            desk_slot: Ghost(None),
        };
        assert(r.faders_view() =~= Map::<u16, FaderView>::empty());
        r
    }

    /// The slab key of the fader with this index, if there is one.
    fn find(&self, index: u16) -> (r: Option<usize>)
        requires
            self.wf(),
        ensures
            r is Some <==> self.slots@.contains_key(index),
            r matches Some(k) ==> self.slots@[index] == k,
    {
        let keys = fader_keys(&self.faders);
        let mut i: usize = 0;
        while i < keys.len()
            invariant
                self.wf(),
                keys@.to_set() == slab_faders(self.faders).dom(),
                i <= keys@.len(),
                forall|t: int| 0 <= t < i ==> slab_faders(self.faders)[#[trigger] keys@[t]].index != index,
            decreases keys@.len() - i,
        {
            let key = keys[i];
            assert(keys@.to_set().contains(key));
            match fader_get(&self.faders, key) {
                Some(f) => {
                    if f.index == index {
                        return Some(key);
                    }
                },
                None => {},
            }
            i = i + 1;
        }
        proof {
            if self.slots@.contains_key(index) {
                let k = self.slots@[index];
                assert(keys@.to_set().contains(k));
                let t = choose|t: int| 0 <= t < keys@.len() && keys@[t] == k;
                assert(slab_faders(self.faders)[keys@[t]].index != index);
            }
        }
        None
    }

    /// The fader with this index, created with default values and cached
    /// first if there was none; one critical section for the caller that
    /// holds the cache.
    pub fn get_or_create_fader(&mut self, index: u16) -> (r: Fader)
        requires
            old(self).wf(),
        ensures
            final(self).wf(),
            (final(self).faders_view(), r@) == get_or_create_spec(old(self).faders_view(), index),
            r.index == index,
            final(self).desk_info_view() == old(self).desk_info_view(),
    {
        match self.find(index) {
            Some(key) => {
                match fader_get(&self.faders, key) {
                    Some(f) => f.duplicate(),
                    None => Fader::new(index),
                }
            },
            None => {
                let fader = Fader::new(index);
                let copy = fader.duplicate();
                let ghost before = self.faders_view();
                let key = fader_insert(&mut self.faders, fader);
                self.slots = Ghost(self.slots@.insert(index, key));
                assert(self.faders_view() =~= before.insert(index, default_fader(index)));
                copy
            },
        }
    }

    /// Stores the fader under its index, replacing any fader cached there.
    pub fn update_fader(&mut self, fader: Fader)
        requires
            old(self).wf(),
        ensures
            final(self).wf(),
            final(self).faders_view() == old(self).faders_view().insert(fader.index, fader@),
            final(self).desk_info_view() == old(self).desk_info_view(),
    {
        let index = fader.index;
        let ghost before = self.faders_view();
        let ghost value = fader@;
        match self.find(index) {
            Some(key) => {
                let _ = fader_remove(&mut self.faders, key);
                self.slots = Ghost(self.slots@.remove(index));
            },
            None => {},
        }
        let key = fader_insert(&mut self.faders, fader);
        self.slots = Ghost(self.slots@.insert(index, key));
        assert(self.faders_view() =~= before.insert(index, value));
    }

    /// Replaces any cached desk information with this one.
    pub fn update_desk_info(&mut self, desk_info: DeskInfo)
        requires
            old(self).wf(),
        ensures
            final(self).wf(),
            final(self).desk_info_view() == Some(desk_info),
            final(self).faders_view() == old(self).faders_view(),
    {
        desk_info_clear(&mut self.desk_info);
        let key = desk_info_insert(&mut self.desk_info, desk_info);
        self.desk_slot = Ghost(Some(key));
        assert(slab_desk_infos(self.desk_info).dom() =~= set![key]);
    }

    /// A copy of the cached state: the faders in ascending order of index and
    /// the desk information, the zero one where none has been received.
    #[verifier::rlimit(60)]
    pub fn snapshot(&self) -> (r: DB)
        requires
            self.wf(),
        ensures
            is_snapshot(r, self.faders_view(), self.desk_info_view()),
    {
        let mut db = DB::default();
        let ghost m = slab_faders(self.faders);
        let keys = fader_keys(&self.faders);
        let mut out: Vec<Fader> = Vec::new();
        let mut i: usize = 0;
        while i < keys.len()
            invariant
                self.wf(),
                m == slab_faders(self.faders),
                keys@.to_set() == m.dom(),
                forall|a: int, b: int| 0 <= a < b < keys@.len() ==> keys@[a] < keys@[b],
                i <= keys@.len(),
                sorted_by_index(out@),
                forall|j: int| 0 <= j < out@.len() ==> exists|t: int|
                    0 <= t < i && #[trigger] out@[j] == m[keys@[t]],
                forall|t: int| 0 <= t < i ==> exists|j: int|
                    0 <= j < out@.len() && out@[j] == m[#[trigger] keys@[t]],
            decreases keys@.len() - i,
        {
            let key = keys[i];
            assert(keys@.to_set().contains(key));
            let f = match fader_get(&self.faders, key) {
                Some(f) => f.duplicate(),
                None => Fader::new(0),
            };
            assert(forall|j: int| 0 <= j < out@.len() ==> out@[j].index != f.index) by {
                assert forall|j: int| 0 <= j < out@.len() implies out@[j].index != f.index by {
                    let t = choose|t: int| 0 <= t < i && out@[j] == m[keys@[t]];
                    assert(keys@.to_set().contains(keys@[t]));
                    assert(keys@[t] != keys@[i as int]);
                }
            }
            let ghost prev = out@;
            let p = insert_by_index(&mut out, f);
            assert forall|j: int| 0 <= j < out@.len() implies exists|t: int|
                0 <= t < i + 1 && #[trigger] out@[j] == m[keys@[t]] by {
                if j < p {
                    assert(out@[j] == prev[j]);
                } else if j == p {
                    assert(out@[j] == m[keys@[i as int]]);
                } else {
                    assert(out@[j] == prev[j - 1]);
                }
            }
            assert forall|t: int| 0 <= t < i + 1 implies exists|j: int|
                0 <= j < out@.len() && out@[j] == m[#[trigger] keys@[t]] by {
                if t < i {
                    let j = choose|j: int| 0 <= j < prev.len() && prev[j] == m[keys@[t]];
                    if j < p {
                        assert(out@[j] == prev[j]);
                    } else {
                        assert(out@[j + 1] == prev[j]);
                    }
                } else {
                    assert(out@[p as int] == m[keys@[t]]);
                }
            }
            i = i + 1;
        }
        let ghost view = self.faders_view();
        assert forall|j: int| 0 <= j < out@.len() implies view.contains_key(#[trigger] out@[j].index)
            && view[out@[j].index] == out@[j]@ by {
            let t = choose|t: int| 0 <= t < i && out@[j] == m[keys@[t]];
            assert(keys@.to_set().contains(keys@[t]));
        }
        assert forall|x: u16| #[trigger] view.contains_key(x) implies exists|j: int|
            0 <= j < out@.len() && out@[j].index == x by {
            let k = self.slots@[x];
            assert(keys@.to_set().contains(k));
            let t = choose|t: int| 0 <= t < keys@.len() && keys@[t] == k;
            let j = choose|j: int| 0 <= j < out@.len() && out@[j] == m[keys@[t]];
            assert(out@[j].index == x);
        }
        match desk_info_first(&self.desk_info) {
            Some(d) => {
                db.deskInfo = d.duplicate();
            },
            None => {},
        }
        proof {
            if let Some(k) = self.desk_slot@ {
                assert(set![k].contains(k));
            }
        }
        db.faders = out;
        db
    }
}

/// Inserts `f` where it keeps `out` in ascending order of index, and returns
/// that position.
fn insert_by_index(out: &mut Vec<Fader>, f: Fader) -> (p: usize)
    requires
        sorted_by_index(old(out)@),
        forall|j: int| 0 <= j < old(out)@.len() ==> #[trigger] old(out)@[j].index != f.index,
    ensures
        p <= old(out)@.len(),
        final(out)@ == old(out)@.insert(p as int, f),
        sorted_by_index(final(out)@),
{
    let mut p: usize = 0;
    while p < out.len() && out[p].index < f.index
        invariant
            p <= out@.len(),
            forall|q: int| 0 <= q < p ==> out@[q].index < f.index,
        decreases out@.len() - p,
    {
        p = p + 1;
    }
    let ghost prev = out@;
    let ghost key = f.index;
    out.insert(p, f);
    assert forall|a: int, b: int| 0 <= a < b < out@.len() implies out@[a].index < out@[b].index by {
        if b < p {
            assert(out@[a] == prev[a] && out@[b] == prev[b]);
        } else if b == p {
            assert(out@[a] == prev[a]);
        } else if a < p {
            assert(out@[a] == prev[a] && out@[b] == prev[b - 1]);
            assert(prev[p as int].index != key);
        } else if a == p {
            assert(out@[b] == prev[b - 1]);
            assert(prev[p as int].index != key);
        } else {
            assert(out@[a] == prev[a - 1] && out@[b] == prev[b - 1]);
        }
    }
    p
}

/// Looking up one index twice with no update between gives field-equal
/// faders, and the second lookup changes nothing; where the index was absent,
/// both are the default fader.
pub proof fn lemma_get_or_create_twice(m: Map<u16, FaderView>, index: u16)
    ensures
        get_or_create_spec(get_or_create_spec(m, index).0, index).1 == get_or_create_spec(m, index).1,
        get_or_create_spec(get_or_create_spec(m, index).0, index).0 == get_or_create_spec(m, index).0,
        !m.contains_key(index) ==> get_or_create_spec(m, index).1 == default_fader(index),
{
}

/// Once a fader is stored, looking up its index gives that fader back and
/// creates nothing.
pub proof fn lemma_update_then_get(m: Map<u16, FaderView>, f: FaderView)
    ensures
        get_or_create_spec(m.insert(f.index, f), f.index) == (m.insert(f.index, f), f),
{
}

/// The cache holds at most one fader per index: no two slab entries share an
/// index, and each entry is the fader cached under its index.
pub proof fn lemma_one_entry_per_index(c: StateCache)
    requires
        c.wf(),
    ensures
        forall|k1: usize, k2: usize|
            #![trigger c.entries()[k1], c.entries()[k2]]
            c.entries().contains_key(k1) && c.entries().contains_key(k2) && k1 != k2
                ==> c.entries()[k1].index != c.entries()[k2].index,
        forall|k: usize| #[trigger] c.entries().contains_key(k) ==> {
            &&& c.faders_view().contains_key(c.entries()[k].index)
            &&& c.faders_view()[c.entries()[k].index] == c.entries()[k]@
        },
{
}

} // verus!
