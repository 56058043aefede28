//! The counter store: last-seen cumulative byte counters per interface,
//! and the delta computation against a fresh sample.

use vstd::prelude::*;

verus! {

/// Cumulative (or, in a delta mapping, per-interval) byte counts of one
/// named network interface.
pub struct IfaceCounters {
    /// Interface name as reported by the operating system; interfaces are
    /// matched across samples by name equality alone.
    pub name: String,
    /// Bytes received.
    pub received: u64,
    /// Bytes transmitted.
    pub transmitted: u64,
}

impl View for IfaceCounters {
    type V = (Seq<char>, u64, u64);

    open spec fn view(&self) -> (Seq<char>, u64, u64) {
        (self.name@, self.received, self.transmitted)
    }
}

/// The views of a sample, in sample order.
pub open spec fn views_of(s: Seq<IfaceCounters>) -> Seq<(Seq<char>, u64, u64)> {
    s.map_values(|e: IfaceCounters| e@)
}

/// Whether the interface names of a sample are pairwise distinct, as the
/// operating system guarantees for one sample.
pub open spec fn names_unique(s: Seq<(Seq<char>, u64, u64)>) -> bool {
    forall|i: int, j: int| 0 <= i < j < s.len() ==> s[i].0 != s[j].0
}

/// The mapping from interface name to (received, transmitted) that a sample
/// denotes; a later entry for the same name wins.
pub open spec fn counters_map(s: Seq<(Seq<char>, u64, u64)>) -> Map<Seq<char>, (u64, u64)>
    decreases s.len(),
{
    if s.len() == 0 {
        Map::empty()
    } else {
        counters_map(s.drop_last()).insert(s.last().0, (s.last().1, s.last().2))
    }
}

/// The stored counters for `name`, an unseen name reading as (0, 0).
pub open spec fn stored_or_zero(m: Map<Seq<char>, (u64, u64)>, name: Seq<char>) -> (u64, u64) {
    if m.contains_key(name) {
        m[name]
    } else {
        (0u64, 0u64)
    }
}

/// Non-negative difference: `cur - prev`, clamped to zero when the counter
/// went backwards (reset or interface replacement).
pub open spec fn sat_sub(cur: u64, prev: u64) -> u64 {
    if cur >= prev {
        (cur - prev) as u64
    } else {
        0u64
    }
}

/// The delta entry that one sample entry yields against stored counters `m`.
pub open spec fn spec_delta(m: Map<Seq<char>, (u64, u64)>, e: (Seq<char>, u64, u64)) -> (
    Seq<char>,
    u64,
    u64,
) {
    (
        e.0,
        sat_sub(e.1, stored_or_zero(m, e.0).0),
        sat_sub(e.2, stored_or_zero(m, e.0).1),
    )
}

/// The delta mapping that a whole sample yields against stored counters `m`,
/// in sample order.
pub open spec fn spec_deltas(m: Map<Seq<char>, (u64, u64)>, s: Seq<(Seq<char>, u64, u64)>) -> Seq<
    (Seq<char>, u64, u64),
> {
    Seq::new(s.len(), |i: int| spec_delta(m, s[i]))
}

/// Last-seen cumulative counters per interface name.
///
/// The store is the only mutable state of the monitor: it is seeded once
/// from the first sample and read-and-updated once per cycle.
pub struct CounterStore {
    entries: Vec<IfaceCounters>,
}

impl View for CounterStore {
    type V = Map<Seq<char>, (u64, u64)>;

    closed spec fn view(&self) -> Map<Seq<char>, (u64, u64)> {
        counters_map(views_of(self.entries@))
    }
}

proof fn lemma_counters_map_domain(s: Seq<(Seq<char>, u64, u64)>, name: Seq<char>)
    ensures
        counters_map(s).contains_key(name) <==> exists|k: int|
            0 <= k < s.len() && s[k].0 == name,
    decreases s.len(),
{
    if s.len() > 0 {
        lemma_counters_map_domain(s.drop_last(), name);
        if s.last().0 == name {
            assert(s[s.len() - 1].0 == name);
        } else if counters_map(s).contains_key(name) {
            let k = choose|k: int| 0 <= k < s.drop_last().len() && s.drop_last()[k].0 == name;
            assert(s[k].0 == name);
        } else {
            assert forall|k: int| 0 <= k < s.len() implies s[k].0 != name by {
                if k < s.len() - 1 {
                    assert(s.drop_last()[k].0 == s[k].0);
                }
            }
        }
    }
}

proof fn lemma_counters_map_value(s: Seq<(Seq<char>, u64, u64)>, k: int)
    requires
        names_unique(s),
        0 <= k < s.len(),
    ensures
        counters_map(s).contains_key(s[k].0),
        counters_map(s)[s[k].0] == (s[k].1, s[k].2),
    decreases s.len(),
{
    if k == s.len() - 1 {
        if s.len() > 1 {
            lemma_counters_map_domain(s.drop_last(), s[k].0);
        }
    } else {
        assert(names_unique(s.drop_last()));
        assert(s.drop_last()[k] == s[k]);
        lemma_counters_map_value(s.drop_last(), k);
        assert(s.last().0 != s[k].0);
    }
}

proof fn lemma_counters_map_update(s: Seq<(Seq<char>, u64, u64)>, k: int, v: (Seq<char>, u64, u64))
    requires
        names_unique(s),
        0 <= k < s.len(),
        v.0 == s[k].0,
    ensures
        counters_map(s.update(k, v)) == counters_map(s).insert(v.0, (v.1, v.2)),
    decreases s.len(),
{
    let su = s.update(k, v);
    if k == s.len() - 1 {
        assert(su.drop_last() =~= s.drop_last());
        assert(su.last() == v);
        assert(counters_map(s.drop_last()).insert(s.last().0, (s.last().1, s.last().2)).insert(
            v.0,
            (v.1, v.2),
        ) =~= counters_map(s.drop_last()).insert(v.0, (v.1, v.2)));
    } else {
        assert(names_unique(s.drop_last()));
        assert(s.drop_last()[k] == s[k]);
        lemma_counters_map_update(s.drop_last(), k, v);
        assert(su.drop_last() =~= s.drop_last().update(k, v));
        assert(su.last() == s.last());
        assert(s.last().0 != v.0);
        assert(counters_map(s.drop_last()).insert(v.0, (v.1, v.2)).insert(
            s.last().0,
            (s.last().1, s.last().2),
        ) =~= counters_map(s.drop_last()).insert(s.last().0, (s.last().1, s.last().2)).insert(
            v.0,
            (v.1, v.2),
        ));
    }
}

impl CounterStore {
    /// Well-formedness: one entry per interface name.
    pub closed spec fn wf(&self) -> bool {
        names_unique(views_of(self.entries@))
    }

    /// An empty store: no interface has been seen yet, so every counter
    /// reads as zero.
    pub fn new() -> (s: CounterStore)
        ensures
            s@ == Map::<Seq<char>, (u64, u64)>::empty(),
            s.wf(),
    {
        let s = CounterStore { entries: Vec::new() };
        proof {
            assert(views_of(s.entries@) =~= Seq::<(Seq<char>, u64, u64)>::empty());
        }
        s
    }

    /// Seed the store with the sample taken once at startup, before any
    /// interval has elapsed. No delta is produced.
    pub fn initialize(sample: Vec<IfaceCounters>) -> (s: CounterStore)
        requires
            names_unique(views_of(sample@)),
        ensures
            s@ == counters_map(views_of(sample@)),
            s.wf(),
    {
        CounterStore { entries: sample }
    }

    /// The stored counters of one interface, if it has been seen.
    pub fn lookup(&self, name: &String) -> (r: Option<(u64, u64)>)
        requires
            self.wf(),
        ensures
            r == if self@.contains_key(name@) {
                Some(self@[name@])
            } else {
                None::<(u64, u64)>
            },
    {
        let mut k: usize = 0;
        while k < self.entries.len()
            invariant
                self.wf(),
                k <= self.entries@.len(),
                forall|j: int| 0 <= j < k ==> self.entries@[j].name@ != name@,
            decreases self.entries@.len() - k,
        {
            if self.entries[k].name == *name {
                proof {
                    lemma_counters_map_value(views_of(self.entries@), k as int);
                }
                return Some((self.entries[k].received, self.entries[k].transmitted));
            }
            k += 1;
        }
        proof {
            lemma_counters_map_domain(views_of(self.entries@), name@);
        }
        None
    }

    /// The stored counters of one interface, an unseen interface reading
    /// as (0, 0).
    fn get_or_zero(&self, name: &String) -> (r: (u64, u64))
        requires
            self.wf(),
        ensures
            r == stored_or_zero(self@, name@),
    {
        match self.lookup(name) {
            Some(p) => p,
            None => (0, 0),
        }
    }

    /// Overwrite (or create) the stored counters of one interface.
    fn put(&mut self, name: String, received: u64, transmitted: u64)
        requires
            old(self).wf(),
        ensures
            final(self).wf(),
            final(self)@ == old(self)@.insert(name@, (received, transmitted)),
    {
        let ghost vs = views_of(old(self).entries@);
        let mut k: usize = 0;
        while k < self.entries.len()
            invariant
                self == old(self),
                old(self).wf(),
                vs == views_of(old(self).entries@),
                k <= self.entries@.len(),
                forall|j: int| 0 <= j < k ==> self.entries@[j].name@ != name@,
            decreases self.entries@.len() - k,
        {
            if self.entries[k].name == name {
                let ghost v = (name@, received, transmitted);
                self.entries[k] = IfaceCounters { name, received, transmitted };
                proof {
                    assert(views_of(self.entries@) =~= vs.update(k as int, v));
                    lemma_counters_map_update(vs, k as int, v);
                    assert(names_unique(vs.update(k as int, v)));
                }
                return ;
            }
            k += 1;
        }
        let ghost v = (name@, received, transmitted);
        self.entries.push(IfaceCounters { name, received, transmitted });
        proof {
            let su = views_of(self.entries@);
            assert(su =~= vs.push(v));
            assert(su.drop_last() =~= vs);
            assert(counters_map(su) == counters_map(vs).insert(v.0, (v.1, v.2)));
            assert(names_unique(su)) by {
                assert forall|i: int, j: int| 0 <= i < j < su.len() implies su[i].0 != su[j].0 by {
                    if j < su.len() - 1 {
                        assert(vs[i] == su[i] && vs[j] == su[j]);
                    } else {
                        assert(vs[i] == su[i]);
                    }
                }
            }
        }
    }

    /// One cycle's worth of delta computation: for every interface in
    /// `sample`, the non-negative difference of its cumulative counters
    /// against the stored ones (an unseen interface reading as previously
    /// zero), received and transmitted independently; the stored counters
    /// are then overwritten with the sample. Interfaces absent from the
    /// sample keep their stale stored entries and yield no delta.
    pub fn compute_delta_and_update(&mut self, sample: &Vec<IfaceCounters>) -> (deltas: Vec<
        IfaceCounters,
    >)
        requires
            old(self).wf(),
            names_unique(views_of(sample@)),
        ensures
            final(self).wf(),
            final(self)@ == old(self)@.union_prefer_right(counters_map(views_of(sample@))),
            views_of(deltas@) == spec_deltas(old(self)@, views_of(sample@)),
    {
        let ghost m0 = self@;
        let ghost sv = views_of(sample@);
        let mut deltas: Vec<IfaceCounters> = Vec::new();
        let mut i: usize = 0;
        proof {
            assert(sv.take(0) =~= Seq::<(Seq<char>, u64, u64)>::empty());
            assert(m0.union_prefer_right(counters_map(sv.take(0))) =~= m0);
        }
        while i < sample.len()
            invariant
                i <= sample@.len(),
                sv == views_of(sample@),
                names_unique(sv),
                self.wf(),
                self@ == m0.union_prefer_right(counters_map(sv.take(i as int))),
                deltas@.len() == i,
                forall|j: int| 0 <= j < i ==> views_of(deltas@)[j] == spec_delta(m0, sv[j]),
            decreases sample@.len() - i,
        {
            let e = &sample[i];
            let prev = self.get_or_zero(&e.name);
            proof {
                lemma_counters_map_domain(sv.take(i as int), e.name@);
                assert(forall|k: int|
                    0 <= k < i ==> sv.take(i as int)[k] == sv[k] && sv[k].0 != sv[i as int].0);
                assert(!counters_map(sv.take(i as int)).contains_key(e.name@));
                assert(stored_or_zero(self@, e.name@) == stored_or_zero(m0, e.name@));
            }
            let drx = e.received.saturating_sub(prev.0);
            let dtx = e.transmitted.saturating_sub(prev.1);
            self.put(e.name.clone(), e.received, e.transmitted);
            let ghost d0 = deltas@;
            deltas.push(IfaceCounters { name: e.name.clone(), received: drx, transmitted: dtx });
            proof {
                assert forall|j: int| 0 <= j < i + 1 implies views_of(deltas@)[j] == spec_delta(
                    m0,
                    sv[j],
                ) by {
                    if j < i {
                        assert(deltas@[j] == d0[j]);
                        assert(views_of(d0)[j] == spec_delta(m0, sv[j]));
                    }
                }
                let i1 = i + 1;
                assert(sv.take(i1 as int).drop_last() =~= sv.take(i as int));
                assert(sv.take(i1 as int).last() == sv[i as int]);
                assert(counters_map(sv.take(i1 as int)) == counters_map(sv.take(i as int)).insert(
                    sv[i as int].0,
                    (sv[i as int].1, sv[i as int].2),
                ));
                vstd::map_lib::lemma_union_insert_right(
                    m0,
                    counters_map(sv.take(i as int)),
                    sv[i as int].0,
                    (sv[i as int].1, sv[i as int].2),
                );
                assert(views_of(deltas@)[i as int] == spec_delta(m0, sv[i as int]));
            }
            i += 1;
        }
        proof {
            assert(sv.take(sample@.len() as int) =~= sv);
            assert(views_of(deltas@) =~= spec_deltas(m0, sv));
        }
        deltas
    }
}

/// Law: for an interface seen before whose cumulative counters did not
/// decrease between two consecutive samples, the computed delta is the
/// exact difference of the two readings, received and transmitted alike.
pub proof fn lemma_delta_exact_difference(m: Map<Seq<char>, (u64, u64)>, e: (Seq<char>, u64, u64))
    requires
        m.contains_key(e.0),
        m[e.0].0 <= e.1,
        m[e.0].1 <= e.2,
    ensures
        spec_delta(m, e) == (e.0, (e.1 - m[e.0].0) as u64, (e.2 - m[e.0].1) as u64),
{
}

/// Law: a cumulative counter that went backwards (counter reset or
/// interface replacement) yields a delta of zero — never a negative or
/// wrapped value.
pub proof fn lemma_delta_reset_clamps_to_zero(m: Map<Seq<char>, (u64, u64)>, e: (
    Seq<char>,
    u64,
    u64,
))
    ensures
        e.1 < stored_or_zero(m, e.0).0 ==> spec_delta(m, e).1 == 0,
        e.2 < stored_or_zero(m, e.0).1 ==> spec_delta(m, e).2 == 0,
{
}

/// Law: an interface not seen before is treated as previously (0, 0): its
/// first delta equals its full cumulative counters, received and
/// transmitted alike.
pub proof fn lemma_delta_new_interface(m: Map<Seq<char>, (u64, u64)>, e: (Seq<char>, u64, u64))
    requires
        !m.contains_key(e.0),
    ensures
        spec_delta(m, e) == e,
{
}

} // verus!
