//! The output reconciler: an arena of per-output subscribers keyed by
//! stable output name, the planning step that matches new output names
//! against physical monitors, and the law the whole reconciliation step
//! obeys.

use vstd::prelude::*;
use crate::text::{str_eq, views_of};

verus! {

/// Inserting a subscriber for a name already present is a fatal
/// invariant violation, never a recoverable condition.
#[derive(Debug, Clone, Copy, PartialEq, Eq, Structural)]
pub struct DuplicateSubscriber;

/// The arena of live per-output subscribers: one handle per output name,
/// owned exclusively by the dispatcher. Its view is the sequence of
/// (name, handle) pairs in insertion order.
pub struct Subscribers<T> {
    entries: Vec<(String, T)>,
}

impl<T> View for Subscribers<T> {
    type V = Seq<(Seq<char>, T)>;

    closed spec fn view(&self) -> Seq<(Seq<char>, T)> {
        self.entries@.map_values(|e: (String, T)| (e.0@, e.1))
    }
}

impl<T> Subscribers<T> {
    /// The names in the arena, in insertion order.
    pub open spec fn names(self) -> Seq<Seq<char>> {
        self@.map_values(|p: (Seq<char>, T)| p.0)
    }

    /// The set of names the arena holds a subscriber for.
    pub open spec fn key_set(self) -> Set<Seq<char>> {
        self.names().to_set()
    }

    /// No two entries may exist for the same output name at once.
    pub open spec fn wf(self) -> bool {
        forall|i: int, j: int| 0 <= i < j < self@.len() ==> self@[i].0 != self@[j].0
    }

    /// An empty arena.
    pub fn new() -> (r: Self)
        ensures
            r@ == Seq::<(Seq<char>, T)>::empty(),
            r.wf(),
    {
        let r = Subscribers { entries: Vec::new() };
        proof {
            assert(r@ =~= Seq::<(Seq<char>, T)>::empty());
        }
        r
    }

    /// How many subscribers are live.
    pub fn len(&self) -> (n: usize)
        ensures
            n == self@.len(),
    {
        self.entries.len()
    }

    /// The subscriber handle at one position.
    pub fn handle_at(&self, i: usize) -> (r: &T)
        requires
            i < self@.len(),
        ensures
            *r == self@[i as int].1,
    {
        &self.entries[i].1
    }

    /// The output name at one position.
    pub fn name_at(&self, i: usize) -> (r: &String)
        requires
            i < self@.len(),
        ensures
            r@ == self@[i as int].0,
    {
        &self.entries[i].0
    }

    /// Whether the arena holds a subscriber for the given name.
    pub fn contains_name(&self, name: &str) -> (r: bool)
        ensures
            r == self.key_set().contains(name@),
    {
        let n: usize = self.entries.len();
        let mut i: usize = 0;
        while i < n
            invariant
                0 <= i <= n,
                n == self.entries@.len(),
                self@.len() == n,
                forall|k: int| 0 <= k < i ==> (#[trigger] self@[k]).0 != name@,
            decreases n - i,
        {
            proof {
                assert(self@[i as int].0 == self.entries@[i as int].0@);
            }
            if str_eq(self.entries[i].0.as_str(), name) {
                proof {
                    assert(self.names()[i as int] == name@);
                    assert(self.names().contains(name@));
                }
                return true;
            }
            i = i + 1;
        }
        proof {
            assert(forall|k: int| 0 <= k < self.names().len()
                ==> #[trigger] self.names()[k] == self@[k].0);
            assert(!self.names().contains(name@));
        }
        false
    }

    /// Insert a subscriber for a name not yet present; a name already
    /// present is the fatal duplicate-insert violation and leaves the
    /// arena untouched.
    pub fn insert_new(&mut self, name: String, handle: T) -> (r: Result<(), DuplicateSubscriber>)
        requires
            old(self).wf(),
        ensures
            final(self).wf(),
            match r {
                Result::Ok(()) => {
                    &&& !old(self).key_set().contains(name@)
                    &&& final(self)@ == old(self)@.push((name@, handle))
                },
                Result::Err(DuplicateSubscriber) => {
                    &&& old(self).key_set().contains(name@)
                    &&& *final(self) == *old(self)
                },
            },
    {
        if self.contains_name(name.as_str()) {
            return Err(DuplicateSubscriber);
        }
        proof {
            assert(forall|k: int| 0 <= k < old(self)@.len()
                ==> #[trigger] old(self).names()[k] == old(self)@[k].0);
        }
        let ghost oldview = self@;
        let ghost namev = name@;
        self.entries.push((name, handle));
        proof {
            assert(self@ =~= oldview.push((namev, handle)));
            assert forall|i: int, j: int| 0 <= i < j < self@.len()
                implies self@[i].0 != self@[j].0 by {
                if j < self@.len() - 1 {
                } else {
                    assert(self@[j].0 == namev);
                    assert(!oldview.map_values(|p: (Seq<char>, T)| p.0).contains(namev));
                    assert(oldview.map_values(|p: (Seq<char>, T)| p.0)[i] == self@[i].0);
                }
            }
        }
        Ok(())
    }

    /// Tear the subscribers for every name outside `keep` out of the
    /// arena, preserving the rest in order, and hand the removed handles
    /// back for teardown.
    #[verifier::loop_isolation(false)]
    pub fn retain_present(&mut self, keep: &Vec<String>) -> (removed: Vec<T>)
        requires
            old(self).wf(),
        ensures
            final(self).wf(),
            final(self)@ == old(self)@.filter(
                |p: (Seq<char>, T)| views_of(keep@).to_set().contains(p.0),
            ),
            removed@ == old(self)@.filter(
                |p: (Seq<char>, T)| !views_of(keep@).to_set().contains(p.0),
            ).map_values(|p: (Seq<char>, T)| p.1),
    {
        let ghost pred = |p: (Seq<char>, T)| views_of(keep@).to_set().contains(p.0);
        let ghost npred = |p: (Seq<char>, T)| !views_of(keep@).to_set().contains(p.0);
        let ghost orig = self@;

        let mut taken: Vec<(String, T)> = Vec::new();
        core::mem::swap(&mut taken, &mut self.entries);
        let mut removed: Vec<T> = Vec::new();
        proof {
            reveal(Seq::filter);
            assert(taken@.map_values(|e: (String, T)| (e.0@, e.1)) == orig);
            assert(orig.take(0) =~= Seq::<(Seq<char>, T)>::empty());
            assert(self@ =~= orig.take(0).filter(pred));
            assert(removed@ =~= orig.take(0).filter(npred).map_values(
                |p: (Seq<char>, T)| p.1,
            ));
        }
        let ghost total = orig.len();
        let n0: usize = taken.len();
        proof {
            assert(total == n0 as int);
        }
        let mut i: usize = 0;
        while taken.len() > 0
            invariant
                i as int + taken@.len() == total,
                0 <= i <= total,
                orig.len() == total,
                taken@.map_values(|e: (String, T)| (e.0@, e.1)) =~= orig.skip(i as int),
                self@ == orig.take(i as int).filter(pred),
                removed@ == orig.take(i as int).filter(npred).map_values(
                    |p: (Seq<char>, T)| p.1,
                ),
                forall|a: int, b: int| 0 <= a < b < orig.len() ==> orig[a].0 != orig[b].0,
            decreases taken@.len(),
        {
            let ghost tb = taken@;
            let e: (String, T) = taken.remove(0);
            let ghost ev = (e.0@, e.1);
            proof {
                reveal(Seq::filter);
                assert(orig.skip(i as int)[0] == ev);
                assert(orig[i as int] == ev);
                assert(orig.take(i + 1).drop_last() =~= orig.take(i as int));
                assert(orig.take(i + 1).last() == orig[i as int]);
                assert(taken@ =~= tb.skip(1));
                assert(taken@.map_values(|en: (String, T)| (en.0@, en.1))
                    =~= tb.map_values(|en: (String, T)| (en.0@, en.1)).skip(1));
                assert(tb.map_values(|en: (String, T)| (en.0@, en.1)).skip(1)
                    =~= orig.skip(i + 1));
            }
            let is_kept: bool = contains_string(keep, e.0.as_str());
            proof {
                assert(is_kept == pred(ev));
            }
            if is_kept {
                let ghost selfview = self@;
                self.entries.push(e);
                proof {
                    reveal(Seq::filter);
                    assert(self@ =~= selfview.push(ev));
                    assert(self@ =~= orig.take(i + 1).filter(pred));
                    assert(removed@ =~= orig.take(i + 1).filter(npred).map_values(
                        |p: (Seq<char>, T)| p.1,
                    ));
                }
            } else {
                removed.push(e.1);
                proof {
                    reveal(Seq::filter);
                    assert(removed@ =~= orig.take(i + 1).filter(npred).map_values(
                        |p: (Seq<char>, T)| p.1,
                    ));
                    assert(self@ =~= orig.take(i + 1).filter(pred));
                }
            }
            i = i + 1;
        }
        proof {
            assert(orig.take(total as int) =~= orig);
            lemma_filter_subseq_unique(orig, pred);
        }
        removed
    }
}

/// Whether a list of strings contains the given name, by contents.
pub fn contains_string(v: &Vec<String>, name: &str) -> (r: bool)
    ensures
        r == views_of(v@).to_set().contains(name@),
{
    let n: usize = v.len();
    let mut i: usize = 0;
    while i < n
        invariant
            0 <= i <= n,
            n == v@.len(),
            forall|k: int| 0 <= k < i ==> #[trigger] v@[k]@ != name@,
        decreases n - i,
    {
        if str_eq(v[i].as_str(), name) {
            proof {
                assert(views_of(v@)[i as int] == name@);
                assert(views_of(v@).contains(name@));
            }
            return true;
        }
        i = i + 1;
    }
    proof {
        assert(forall|k: int| 0 <= k < views_of(v@).len()
            ==> #[trigger] views_of(v@)[k] == v@[k]@);
        assert(!views_of(v@).contains(name@));
    }
    false
}

/// One planned subscriber creation: the output name and the index of the
/// physical monitor whose connector matched it.
#[derive(Debug)]
pub struct Addition {
    pub name: String,
    pub monitor: usize,
}

/// Whether a monitor's connector, when it reports one, equals a name.
pub open spec fn conn_matches(m: Option<String>, name: Seq<char>) -> bool {
    match m {
        Option::Some(c) => c@ == name,
        Option::None => false,
    }
}

/// The index of the first monitor whose connector equals the name, or
/// minus one.
pub open spec fn monitor_idx(monitors: Seq<Option<String>>, name: Seq<char>) -> int
    decreases monitors.len(),
{
    if monitors.len() == 0 {
        -1
    } else if conn_matches(monitors[0], name) {
        0
    } else {
        let rest = monitor_idx(monitors.skip(1), name);
        if rest < 0 {
            -1
        } else {
            rest + 1
        }
    }
}

/// Whether a name resolves against the physical-monitor list.
pub open spec fn resolvable(monitors: Seq<Option<String>>, name: Seq<char>) -> bool {
    monitor_idx(monitors, name) >= 0
}

/// The set of names that resolve against the physical-monitor list.
pub open spec fn resolvable_set(monitors: Seq<Option<String>>) -> Set<Seq<char>> {
    Set::new(|n: Seq<char>| resolvable(monitors, n))
}

proof fn lemma_monitor_idx(monitors: Seq<Option<String>>, name: Seq<char>)
    ensures
        monitor_idx(monitors, name) < 0 ==> forall|j: int|
            0 <= j < monitors.len() ==> !conn_matches(#[trigger] monitors[j], name),
        monitor_idx(monitors, name) >= 0 ==> {
            let k = monitor_idx(monitors, name);
            &&& 0 <= k < monitors.len()
            &&& conn_matches(monitors[k], name)
            &&& forall|j: int| 0 <= j < k ==> !conn_matches(#[trigger] monitors[j], name)
        },
    decreases monitors.len(),
{
    if monitors.len() > 0 && !conn_matches(monitors[0], name) {
        lemma_monitor_idx(monitors.skip(1), name);
        let rest = monitor_idx(monitors.skip(1), name);
        if rest < 0 {
            assert forall|j: int| 0 <= j < monitors.len()
                implies !conn_matches(#[trigger] monitors[j], name) by {
                if j >= 1 {
                    assert(monitors.skip(1)[j - 1] == monitors[j]);
                }
            }
        } else {
            let k = monitor_idx(monitors, name);
            assert(k == rest + 1);
            assert(monitors.skip(1)[rest] == monitors[k]);
            assert forall|j: int| 0 <= j < k
                implies !conn_matches(#[trigger] monitors[j], name) by {
                if j >= 1 {
                    assert(monitors.skip(1)[j - 1] == monitors[j]);
                }
            }
        }
    }
}

/// Find the first monitor whose connector equals the name.
pub fn first_monitor(monitors: &Vec<Option<String>>, name: &str) -> (r: Option<usize>)
    ensures
        match r {
            Option::Some(j) => {
                &&& monitor_idx(monitors@, name@) == j as int
                &&& j < monitors@.len()
            },
            Option::None => monitor_idx(monitors@, name@) < 0,
        },
{
    let n: usize = monitors.len();
    let mut i: usize = 0;
    while i < n
        invariant
            0 <= i <= n,
            n == monitors@.len(),
            forall|j: int| 0 <= j < i ==> !conn_matches(#[trigger] monitors@[j], name@),
        decreases n - i,
    {
        let hit: bool = match &monitors[i] {
            Option::Some(c) => str_eq(c.as_str(), name),
            Option::None => false,
        };
        if hit {
            proof {
                lemma_monitor_idx(monitors@, name@);
            }
            return Some(i);
        }
        i = i + 1;
    }
    proof {
        lemma_monitor_idx(monitors@, name@);
    }
    None
}

/// The names, from the new output set in order, that get a subscriber in
/// this pass: not already live, not created earlier in the pass, and
/// resolvable against the monitor list.
pub open spec fn plan_created(
    existing: Set<Seq<char>>,
    new: Seq<Seq<char>>,
    monitors: Seq<Option<String>>,
) -> Seq<Seq<char>>
    decreases new.len(),
{
    if new.len() == 0 {
        Seq::<Seq<char>>::empty()
    } else {
        let prev = plan_created(existing, new.drop_last(), monitors);
        let nm = new.last();
        if existing.contains(nm) || prev.contains(nm) || !resolvable(monitors, nm) {
            prev
        } else {
            prev.push(nm)
        }
    }
}

/// The names, from the new output set in order, that are logged and
/// skipped in this pass: not live, not created earlier in the pass, and
/// unresolvable. They are re-attempted on the next topology event.
pub open spec fn plan_skipped(
    existing: Set<Seq<char>>,
    new: Seq<Seq<char>>,
    monitors: Seq<Option<String>>,
) -> Seq<Seq<char>>
    decreases new.len(),
{
    if new.len() == 0 {
        Seq::<Seq<char>>::empty()
    } else {
        let prev = plan_skipped(existing, new.drop_last(), monitors);
        let created_prev = plan_created(existing, new.drop_last(), monitors);
        let nm = new.last();
        if !existing.contains(nm) && !created_prev.contains(nm) && !resolvable(monitors, nm) {
            prev.push(nm)
        } else {
            prev
        }
    }
}

/// Plan this pass's subscriber creations: for every name of the new
/// output set that has no live subscriber, resolve the first monitor
/// whose connector matches it; an unresolvable name is skipped, to be
/// retried on the next topology event.
#[verifier::loop_isolation(false)]
pub fn resolve_additions<T>(
    subs: &Subscribers<T>,
    new_outputs: &Vec<String>,
    monitors: &Vec<Option<String>>,
) -> (r: (Vec<Addition>, Vec<String>))
    ensures
        r.0@.map_values(|a: Addition| a.name@)
            == plan_created(subs.key_set(), views_of(new_outputs@), monitors@),
        views_of(r.1@) == plan_skipped(subs.key_set(), views_of(new_outputs@), monitors@),
        forall|k: int| 0 <= k < r.0@.len() ==> {
            &&& (#[trigger] r.0@[k]).monitor as int == monitor_idx(monitors@, r.0@[k].name@)
            &&& r.0@[k].monitor < monitors@.len()
        },
{
    let ghost k_set = subs.key_set();
    let ghost new_views = views_of(new_outputs@);
    let n: usize = new_outputs.len();
    let mut adds: Vec<Addition> = Vec::new();
    let mut created_names: Vec<String> = Vec::new();
    let mut skipped: Vec<String> = Vec::new();
    let mut i: usize = 0;
    proof {
        assert(new_views.take(0) =~= Seq::<Seq<char>>::empty());
        assert(adds@.map_values(|a: Addition| a.name@) =~= plan_created(
            k_set,
            new_views.take(0),
            monitors@,
        ));
        assert(views_of(skipped@) =~= plan_skipped(k_set, new_views.take(0), monitors@));
        assert(views_of(created_names@) =~= adds@.map_values(|a: Addition| a.name@));
    }
    while i < n
        invariant
            0 <= i <= n,
            n == new_outputs@.len(),
            adds@.map_values(|a: Addition| a.name@)
                == plan_created(k_set, new_views.take(i as int), monitors@),
            views_of(skipped@) == plan_skipped(k_set, new_views.take(i as int), monitors@),
            views_of(created_names@) == adds@.map_values(|a: Addition| a.name@),
            forall|k: int| 0 <= k < adds@.len() ==> {
                &&& (#[trigger] adds@[k]).monitor as int == monitor_idx(monitors@, adds@[k].name@)
                &&& adds@[k].monitor < monitors@.len()
            },
        decreases n - i,
    {
        let name: &String = &new_outputs[i];
        proof {
            assert(new_views.take(i + 1).drop_last() =~= new_views.take(i as int));
            assert(new_views.take(i + 1).last() == new_views[i as int]);
            assert(new_views[i as int] == name@);
        }
        let in_subs: bool = subs.contains_name(name.as_str());
        let in_created: bool = contains_string(&created_names, name.as_str());
        proof {
            assert(in_created == views_of(created_names@).contains(name@));
        }
        if !in_subs && !in_created {
            match first_monitor(monitors, name.as_str()) {
                Some(j) => {
                    adds.push(Addition { name: name.clone(), monitor: j });
                    created_names.push(name.clone());
                    proof {
                        assert(adds@.map_values(|a: Addition| a.name@) =~= plan_created(
                            k_set,
                            new_views.take(i + 1),
                            monitors@,
                        ));
                        assert(views_of(created_names@) =~= adds@.map_values(
                            |a: Addition| a.name@,
                        ));
                        assert(views_of(skipped@) =~= plan_skipped(
                            k_set,
                            new_views.take(i + 1),
                            monitors@,
                        ));
                    }
                },
                None => {
                    skipped.push(name.clone());
                    proof {
                        assert(views_of(skipped@) =~= plan_skipped(
                            k_set,
                            new_views.take(i + 1),
                            monitors@,
                        ));
                        assert(adds@.map_values(|a: Addition| a.name@) =~= plan_created(
                            k_set,
                            new_views.take(i + 1),
                            monitors@,
                        ));
                    }
                },
            }
        } else {
            proof {
                assert(adds@.map_values(|a: Addition| a.name@) =~= plan_created(
                    k_set,
                    new_views.take(i + 1),
                    monitors@,
                ));
                assert(views_of(skipped@) =~= plan_skipped(
                    k_set,
                    new_views.take(i + 1),
                    monitors@,
                ));
            }
        }
        i = i + 1;
    }
    proof {
        assert(new_views.take(n as int) =~= new_views);
    }
    (adds, skipped)
}

proof fn lemma_plan_created_set(
    existing: Set<Seq<char>>,
    new: Seq<Seq<char>>,
    monitors: Seq<Option<String>>,
)
    ensures
        plan_created(existing, new, monitors).to_set()
            == new.to_set().intersect(resolvable_set(monitors)).difference(existing),
    decreases new.len(),
{
    if new.len() == 0 {
        assert(plan_created(existing, new, monitors).to_set()
            =~= new.to_set().intersect(resolvable_set(monitors)).difference(existing));
    } else {
        lemma_plan_created_set(existing, new.drop_last(), monitors);
        let prev = plan_created(existing, new.drop_last(), monitors);
        let cur = plan_created(existing, new, monitors);
        let nm = new.last();
        assert forall|x: Seq<char>| cur.contains(x)
            <==> (prev.contains(x) || (x == nm && !existing.contains(nm) && !prev.contains(nm)
                && resolvable(monitors, nm))) by {
            if existing.contains(nm) || prev.contains(nm) || !resolvable(monitors, nm) {
            } else {
                if cur.contains(x) {
                    let k = choose|k: int| 0 <= k < cur.len() && cur[k] == x;
                    if k < cur.len() - 1 {
                        assert(prev[k] == x);
                        assert(prev.contains(x));
                    }
                }
                if prev.contains(x) {
                    let k = choose|k: int| 0 <= k < prev.len() && prev[k] == x;
                    assert(cur[k] == x);
                    assert(cur.contains(x));
                }
                if x == nm {
                    assert(cur[cur.len() - 1] == nm);
                    assert(cur.contains(x));
                }
            }
        }
        assert forall|x: Seq<char>| new.contains(x)
            <==> (new.drop_last().contains(x) || x == nm) by {
            if new.contains(x) {
                let k = choose|k: int| 0 <= k < new.len() && new[k] == x;
                if k < new.len() - 1 {
                    assert(new.drop_last()[k] == x);
                    assert(new.drop_last().contains(x));
                }
            }
            if new.drop_last().contains(x) {
                let k = choose|k: int|
                    0 <= k < new.drop_last().len() && new.drop_last()[k] == x;
                assert(new[k] == x);
                assert(new.contains(x));
            }
            if x == nm {
                assert(new[new.len() - 1] == x);
                assert(new.contains(x));
            }
        }
        assert forall|x: Seq<char>| prev.contains(x)
            <==> (new.drop_last().contains(x) && resolvable(monitors, x)
                && !existing.contains(x)) by {
            assert(prev.to_set().contains(x) == new.drop_last().to_set().intersect(
                resolvable_set(monitors),
            ).difference(existing).contains(x));
        }
        assert(cur.to_set()
            =~= new.to_set().intersect(resolvable_set(monitors)).difference(existing));
    }
}

/// The law the whole reconciliation step obeys: tear down the
/// subscribers for names outside the new output set, then create one for
/// every remaining new name that resolves against the monitor list, and
/// the arena's key set comes out as exactly the new output-name set
/// intersected with the union of the previously live names and the names
/// resolvable at this step.
pub proof fn lemma_reconcile_key_set(
    existing: Set<Seq<char>>,
    new: Seq<Seq<char>>,
    monitors: Seq<Option<String>>,
)
    ensures
        ({
            let kept = existing.intersect(new.to_set());
            kept.union(plan_created(kept, new, monitors).to_set())
                == new.to_set().intersect(existing.union(resolvable_set(monitors)))
        }),
{
    let kept = existing.intersect(new.to_set());
    lemma_plan_created_set(kept, new, monitors);
    assert(kept.union(plan_created(kept, new, monitors).to_set())
        =~= new.to_set().intersect(existing.union(resolvable_set(monitors))));
}

/// Every element of a filtered sequence is an element of the unfiltered
/// one.
proof fn lemma_filter_is_subset<A>(s: Seq<A>, pred: spec_fn(A) -> bool)
    ensures
        forall|k: int| 0 <= k < s.filter(pred).len() ==> s.contains(#[trigger] s.filter(pred)[k]),
    decreases s.len(),
{
    reveal(Seq::filter);
    if s.len() > 0 {
        lemma_filter_is_subset(s.drop_last(), pred);
        let f = s.filter(pred);
        let fp = s.drop_last().filter(pred);
        assert forall|k: int| 0 <= k < f.len() implies s.contains(f[k]) by {
            if pred(s.last()) && k == f.len() - 1 {
                assert(f[k] == s.last());
                assert(s[s.len() - 1] == s.last());
            } else {
                assert(f[k] == fp[k]);
                assert(s.drop_last().contains(fp[k]));
                let m = choose|m: int|
                    0 <= m < s.drop_last().len() && s.drop_last()[m] == fp[k];
                assert(s[m] == fp[k]);
            }
        }
    }
}

/// Filtering a sequence of pairs with pairwise-distinct names keeps the
/// names pairwise distinct.
proof fn lemma_filter_subseq_unique<T>(s: Seq<(Seq<char>, T)>, pred: spec_fn((Seq<char>, T)) -> bool)
    requires
        forall|a: int, b: int| 0 <= a < b < s.len() ==> s[a].0 != s[b].0,
    ensures
        forall|a: int, b: int| 0 <= a < b < s.filter(pred).len()
            ==> s.filter(pred)[a].0 != s.filter(pred)[b].0,
    decreases s.len(),
{
    reveal(Seq::filter);
    if s.len() > 0 {
        assert(forall|k: int| 0 <= k < s.len() - 1 ==> s.drop_last()[k] == s[k]);
        lemma_filter_subseq_unique(s.drop_last(), pred);
        let f = s.filter(pred);
        let fprev = s.drop_last().filter(pred);
        if pred(s.last()) {
            assert(f == fprev.push(s.last()));
            assert forall|a: int, b: int| 0 <= a < b < f.len() implies f[a].0 != f[b].0 by {
                if b < f.len() - 1 {
                    assert(f[a] == fprev[a] && f[b] == fprev[b]);
                } else {
                    assert(f[b] == s.last());
                    assert(f[a] == fprev[a]);
                    lemma_filter_is_subset(s.drop_last(), pred);
                    assert(s.drop_last().contains(fprev[a]));
                    let m = choose|m: int|
                        0 <= m < s.drop_last().len() && s.drop_last()[m] == fprev[a];
                    assert(s[m] == fprev[a]);
                    assert(s[m].0 != s[s.len() - 1].0);
                }
            }
        } else {
            assert(f == fprev);
        }
    }
}

} // verus!
