//! Processing a set of units into a sequence of inter-dependent stages.
//!
//! The stager hands out stages one at a time: each stage holds only units
//! whose dependencies are already satisfied, parallel-safe units and
//! thread-local units never share a stage, and a unit enters the satisfied
//! set only when it is marked complete, never to leave it again.

use vstd::prelude::*;

use crate::unit::{Dependency, SystemUnit};

verus! {

/// A unit is ready when every one of its dependencies has been provided.
pub open spec fn is_ready(u: SystemUnit, provided: Seq<Dependency>) -> bool {
    forall|i: int|
        0 <= i < u.dependencies@.len() ==> provided.contains(#[trigger] u.dependencies@[i])
}

/// The subsequence of `s`, in order, that is ready under `provided` and whose
/// thread-local flag equals `tl`.
pub open spec fn ready_units(s: Seq<SystemUnit>, provided: Seq<Dependency>, tl: bool) -> Seq<
    SystemUnit,
>
    decreases s.len(),
{
    if s.len() == 0 {
        Seq::empty()
    } else {
        ready_units(s.drop_last(), provided, tl) + if is_ready(s.last(), provided)
            && s.last().thread_local == tl {
            seq![s.last()]
        } else {
            Seq::empty()
        }
    }
}

/// The subsequence of `s`, in order, that is not ready under `provided`.
pub open spec fn blocked_units(s: Seq<SystemUnit>, provided: Seq<Dependency>) -> Seq<SystemUnit>
    decreases s.len(),
{
    if s.len() == 0 {
        Seq::empty()
    } else {
        blocked_units(s.drop_last(), provided) + if !is_ready(s.last(), provided) {
            seq![s.last()]
        } else {
            Seq::empty()
        }
    }
}

/// When nothing in `s` is ready, everything in `s` is blocked.
proof fn lemma_nothing_ready_all_blocked(s: Seq<SystemUnit>, provided: Seq<Dependency>)
    requires
        ready_units(s, provided, false).len() == 0,
        ready_units(s, provided, true).len() == 0,
    ensures
        blocked_units(s, provided) == s,
    decreases s.len(),
{
    if s.len() == 0 {
        assert(blocked_units(s, provided) =~= s);
    } else {
        lemma_nothing_ready_all_blocked(s.drop_last(), provided);
        if is_ready(s.last(), provided) {
            assert(ready_units(s, provided, s.last().thread_local).len() > 0);
        }
        assert(blocked_units(s, provided) =~= s);
    }
}

/// Every unit that `ready_units` keeps is ready and carries the requested
/// thread-local flag.
proof fn lemma_ready_units_ready(s: Seq<SystemUnit>, provided: Seq<Dependency>, tl: bool)
    ensures
        forall|i: int|
            0 <= i < ready_units(s, provided, tl).len() ==> is_ready(
                #[trigger] ready_units(s, provided, tl)[i],
                provided,
            ) && ready_units(s, provided, tl)[i].thread_local == tl,
    decreases s.len(),
{
    if s.len() > 0 {
        lemma_ready_units_ready(s.drop_last(), provided, tl);
    }
}

/// Membership in a concatenation, element-wise.
proof fn lemma_append_contains<T>(a: Seq<T>, b: Seq<T>)
    ensures
        forall|x: T| #[trigger] (a + b).contains(x) <==> a.contains(x) || b.contains(x),
{
    assert forall|x: T| #[trigger] (a + b).contains(x) implies a.contains(x) || b.contains(x) by {
        let i = choose|i: int| 0 <= i < (a + b).len() && (a + b)[i] == x;
        if i < a.len() {
            assert(a[i] == x);
        } else {
            assert(b[i - a.len()] == x);
        }
    }
    assert forall|x: T| a.contains(x) || b.contains(x) implies #[trigger] (a + b).contains(x) by {
        if a.contains(x) {
            let i = choose|i: int| 0 <= i < a.len() && a[i] == x;
            assert((a + b)[i] == x);
        } else {
            let i = choose|i: int| 0 <= i < b.len() && b[i] == x;
            assert((a + b)[a.len() + i] == x);
        }
    }
}

/// A discrete stage to run. Unless a stage is marked thread-local, its units
/// can be run in parallel.
pub struct Stage {
    pub thread_local: bool,
    pub units: Vec<SystemUnit>,
}

/// A stager that incrementally plans stages to be run.
pub struct Stager {
    units: Vec<SystemUnit>,
    provided: Vec<Dependency>,
    thread_locals: Vec<SystemUnit>,
}

impl Stager {
    /// The units that have not been handed out in a stage yet.
    pub closed spec fn pending(&self) -> Seq<SystemUnit> {
        self.units@
    }

    /// Every dependency provided by units marked complete so far.
    pub closed spec fn satisfied(&self) -> Seq<Dependency> {
        self.provided@
    }

    /// Ready thread-local units buffered for the next thread-local stage.
    pub closed spec fn buffered(&self) -> Seq<SystemUnit> {
        self.thread_locals@
    }

    /// Buffered units are thread-local and stay ready.
    pub open spec fn wf(&self) -> bool {
        forall|i: int|
            0 <= i < self.buffered().len() ==> (#[trigger] self.buffered()[i]).thread_local
                && is_ready(self.buffered()[i], self.satisfied())
    }

    /// Construct a new stager out of a collection of units.
    pub fn new(units: Vec<SystemUnit>) -> (r: Self)
        ensures
            r.pending() == units@,
            r.satisfied() =~= Seq::<Dependency>::empty(),
            r.buffered() =~= Seq::<SystemUnit>::empty(),
            r.wf(),
    {
        Stager { units, provided: Vec::new(), thread_locals: Vec::new() }
    }

    /// Whether every dependency of `u` is already provided.
    fn unit_ready(provided: &Vec<Dependency>, u: &SystemUnit) -> (r: bool)
        ensures
            r == is_ready(*u, provided@),
    {
        let mut i: usize = 0;
        while i < u.dependencies.len()
            invariant
                0 <= i <= u.dependencies@.len(),
                forall|k: int| 0 <= k < i ==> provided@.contains(#[trigger] u.dependencies@[k]),
            decreases u.dependencies@.len() - i,
        {
            let d = u.dependencies[i];
            let mut j: usize = 0;
            let mut found = false;
            while j < provided.len()
                invariant
                    0 <= j <= provided@.len(),
                    found <==> exists|k: int| 0 <= k < j && provided@[k] == d,
                decreases provided@.len() - j,
            {
                if provided[j] == d {
                    found = true;
                }
                j = j + 1;
            }
            if !found {
                assert(!provided@.contains(u.dependencies@[i as int]));
                return false;
            }
            i = i + 1;
        }
        true
    }

    /// Plan and return the next stage to run.
    ///
    /// A pass moves every ready unit out of the pending set: ready
    /// parallel-safe units are returned first as a parallel stage, ready
    /// thread-local units are buffered and returned, in arrival order, as a
    /// thread-local stage once no parallel stage is due. Nothing is returned
    /// exactly when no pending unit is ready and nothing is buffered; pending
    /// units (a cycle, or a dependency nothing provides) then stay in place
    /// for `into_unstaged` to report.
    #[verifier::rlimit(50)]
    #[verifier::spinoff_prover]
    pub fn stage(&mut self) -> (r: Option<Stage>)
        requires
            old(self).wf(),
        ensures
            final(self).wf(),
            final(self).satisfied() == old(self).satisfied(),
            ({
                let par = ready_units(old(self).pending(), old(self).satisfied(), false);
                let tl = ready_units(old(self).pending(), old(self).satisfied(), true);
                match r {
                    Some(st) => {
                        &&& final(self).pending() == blocked_units(
                            old(self).pending(),
                            old(self).satisfied(),
                        )
                        &&& st.units@.len() > 0
                        &&& (forall|i: int|
                            0 <= i < st.units@.len() ==> (#[trigger] st.units@[i]).thread_local
                                == st.thread_local && is_ready(
                                st.units@[i],
                                old(self).satisfied(),
                            ))
                        &&& if par.len() > 0 {
                            &&& !st.thread_local
                            &&& st.units@ == par
                            &&& final(self).buffered() == old(self).buffered() + tl
                        } else {
                            &&& st.thread_local
                            &&& st.units@ == old(self).buffered() + tl
                            &&& final(self).buffered() =~= Seq::<SystemUnit>::empty()
                        }
                    },
                    None => {
                        &&& par.len() == 0
                        &&& tl.len() == 0
                        &&& old(self).buffered().len() == 0
                        &&& final(self).pending() == old(self).pending()
                        &&& final(self).buffered().len() == 0
                    },
                }
            }),
    {
        let ghost prov = self.provided@;
        let ghost old_tl = self.thread_locals@;

        let mut incoming: Vec<SystemUnit> = Vec::new();
        core::mem::swap(&mut incoming, &mut self.units);
        let ghost orig = incoming@;

        let mut next: Vec<SystemUnit> = Vec::new();
        let mut par: Vec<SystemUnit> = Vec::new();
        let ghost mut done: int = 0;

        while incoming.len() > 0
            invariant
                0 <= done <= orig.len(),
                incoming@ == orig.subrange(done, orig.len() as int),
                self.provided@ == prov,
                self.units@.len() == 0,
                par@ == ready_units(orig.subrange(0, done), prov, false),
                self.thread_locals@ == old_tl + ready_units(orig.subrange(0, done), prov, true),
                next@ == blocked_units(orig.subrange(0, done), prov),
                self.wf(),
            decreases incoming@.len(),
        {
            let u = incoming.remove(0);
            proof {
                assert(u == orig[done]);
                assert(orig.subrange(0, done + 1) =~= orig.subrange(0, done).push(orig[done]));
                assert(orig.subrange(0, done + 1).drop_last() =~= orig.subrange(0, done));
                assert(incoming@ =~= orig.subrange(done + 1, orig.len() as int));
            }
            let ready = Self::unit_ready(&self.provided, &u);
            if !ready {
                next.push(u);
                proof {
                    assert(next@ =~= blocked_units(orig.subrange(0, done + 1), prov));
                    assert(self.thread_locals@ =~= old_tl + ready_units(
                        orig.subrange(0, done + 1),
                        prov,
                        true,
                    ));
                    assert(par@ =~= ready_units(orig.subrange(0, done + 1), prov, false));
                }
            } else if u.thread_local {
                self.thread_locals.push(u);
                proof {
                    assert(self.thread_locals@ =~= old_tl + ready_units(
                        orig.subrange(0, done + 1),
                        prov,
                        true,
                    ));
                    assert(next@ =~= blocked_units(orig.subrange(0, done + 1), prov));
                    assert(par@ =~= ready_units(orig.subrange(0, done + 1), prov, false));
                }
            } else {
                par.push(u);
                proof {
                    assert(par@ =~= ready_units(orig.subrange(0, done + 1), prov, false));
                    assert(next@ =~= blocked_units(orig.subrange(0, done + 1), prov));
                    assert(self.thread_locals@ =~= old_tl + ready_units(
                        orig.subrange(0, done + 1),
                        prov,
                        true,
                    ));
                }
            }
            proof {
                done = done + 1;
            }
        }

        proof {
            assert(done == orig.len());
            assert(orig.subrange(0, done) =~= orig);
        }

        self.units = next;

        if par.len() > 0 {
            proof {
                lemma_ready_units_ready(orig, prov, false);
            }
            return Some(Stage { thread_local: false, units: par });
        }

        if self.thread_locals.len() > 0 {
            let mut tls: Vec<SystemUnit> = Vec::new();
            core::mem::swap(&mut tls, &mut self.thread_locals);
            return Some(Stage { thread_local: true, units: tls });
        }

        proof {
            lemma_nothing_ready_all_blocked(orig, prov);
        }
        None
    }

    /// Mark the given unit as successfully processed: everything it provides,
    /// and the unit's own id, become satisfied, permanently.
    pub fn mark(&mut self, unit: SystemUnit)
        requires
            old(self).wf(),
        ensures
            final(self).wf(),
            final(self).pending() == old(self).pending(),
            final(self).buffered() == old(self).buffered(),
            final(self).satisfied() == old(self).satisfied() + unit.provides@ + seq![
                Dependency::Unit(unit.id),
            ],
            forall|d: Dependency|
                #[trigger] final(self).satisfied().contains(d) <==> (old(
                    self,
                ).satisfied().contains(d) || unit.provides@.contains(d) || d == Dependency::Unit(
                    unit.id,
                )),
    {
        let ghost prov = self.provided@;
        let mut i: usize = 0;
        while i < unit.provides.len()
            invariant
                0 <= i <= unit.provides@.len(),
                self.provided@ == prov + unit.provides@.subrange(0, i as int),
                self.units@ == old(self).units@,
                self.thread_locals@ == old(self).thread_locals@,
            decreases unit.provides@.len() - i,
        {
            let d = unit.provides[i];
            self.provided.push(d);
            proof {
                assert(self.provided@ =~= prov + unit.provides@.subrange(0, i + 1));
            }
            i = i + 1;
        }
        self.provided.push(Dependency::Unit(unit.id));
        proof {
            assert(unit.provides@.subrange(0, unit.provides@.len() as int) =~= unit.provides@);
            assert(self.provided@ =~= prov + unit.provides@ + seq![Dependency::Unit(unit.id)]);
            lemma_append_contains(prov + unit.provides@, seq![Dependency::Unit(unit.id)]);
            lemma_append_contains(prov, unit.provides@);
            assert forall|d: Dependency| unit.provides@.contains(d) || d == Dependency::Unit(
                unit.id,
            ) || prov.contains(d) implies #[trigger] self.provided@.contains(d) by {
                assert(seq![Dependency::Unit(unit.id)][0] == Dependency::Unit(unit.id));
                assert(seq![Dependency::Unit(unit.id)].contains(Dependency::Unit(unit.id)));
            }
            assert forall|i: int| 0 <= i < self.thread_locals@.len() implies (
            #[trigger] self.thread_locals@[i]).thread_local && is_ready(
                self.thread_locals@[i],
                self.provided@,
            ) by {
                assert(is_ready(self.thread_locals@[i], prov));
            }
        }
    }

    /// Convert into the units that never became ready.
    pub fn into_unstaged(self) -> (r: Vec<SystemUnit>)
        ensures
            r@ == self.pending(),
    {
        let Stager { units, .. } = self;
        units
    }
}

/// A File or Dir dependency names a concrete file-system resource.
pub open spec fn is_resource(d: Dependency) -> bool {
    d is File || d is Dir
}

/// Two distinct units both claim to provide the resource `d`.
pub open spec fn claims_conflict(s: Seq<SystemUnit>, d: Dependency) -> bool {
    is_resource(d) && exists|i: int, j: int|
        0 <= i < j < s.len() && #[trigger] s[i].provides@.contains(d)
            && #[trigger] s[j].provides@.contains(d)
}

/// Whether the provides list of `u` holds `d`.
fn provides_contains(u: &SystemUnit, d: Dependency) -> (r: bool)
    ensures
        r == u.provides@.contains(d),
{
    let mut i: usize = 0;
    while i < u.provides.len()
        invariant
            0 <= i <= u.provides@.len(),
            forall|k: int| 0 <= k < i ==> u.provides@[k] != d,
        decreases u.provides@.len() - i,
    {
        if u.provides[i] == d {
            return true;
        }
        i = i + 1;
    }
    false
}

/// Find a file or directory resource that two distinct units both claim to
/// provide, if any: such a configuration is an error that must be surfaced
/// before scheduling begins.
pub fn find_conflicting_claim(units: &Vec<SystemUnit>) -> (r: Option<Dependency>)
    ensures
        match r {
            Some(d) => claims_conflict(units@, d),
            None => forall|d: Dependency| !claims_conflict(units@, d),
        },
{
    let n = units.len();
    let mut i: usize = 0;
    while i < n
        invariant
            0 <= i <= n,
            n == units@.len(),
            forall|d: Dependency, a: int, b: int|
                0 <= a < b < units@.len() && a < i && is_resource(d) ==> !(
                #[trigger] units@[a].provides@.contains(d)
                    && #[trigger] units@[b].provides@.contains(d)),
        decreases n - i,
    {
        let m = units[i].provides.len();
        let mut k: usize = 0;
        while k < m
            invariant
                0 <= k <= m,
                0 <= i < n,
                n == units@.len(),
                m == units@[i as int].provides@.len(),
                forall|a: int, b: int, d: Dependency|
                    0 <= a < b < units@.len() && a < i && is_resource(d) ==> !(
                    #[trigger] units@[a].provides@.contains(d)
                        && #[trigger] units@[b].provides@.contains(d)),
                forall|kk: int, b: int|
                    0 <= kk < k && i < b < units@.len() && is_resource(
                        #[trigger] units@[i as int].provides@[kk],
                    ) ==> !(#[trigger] units@[b].provides@).contains(
                        units@[i as int].provides@[kk],
                    ),
            decreases m - k,
        {
            let d = units[i].provides[k];
            let resource = match d {
                Dependency::File(_) => true,
                Dependency::Dir(_) => true,
                Dependency::Unit(_) => false,
            };
            if resource {
                let mut j: usize = i + 1;
                while j < n
                    invariant
                        i < j <= n,
                        0 <= i < n,
                        0 <= k < m,
                        n == units@.len(),
                        m == units@[i as int].provides@.len(),
                        d == units@[i as int].provides@[k as int],
                        is_resource(d),
                        forall|b: int|
                            i < b < j ==> !(#[trigger] units@[b].provides@).contains(d),
                    decreases n - j,
                {
                    if provides_contains(&units[j], d) {
                        assert(units@[i as int].provides@[k as int] == d);
                        assert(units@[i as int].provides@.contains(d));
                        assert(claims_conflict(units@, d));
                        return Some(d);
                    }
                    j = j + 1;
                }
            }
            k = k + 1;
        }
        i = i + 1;
    }
    assert forall|d: Dependency| !claims_conflict(units@, d) by {
        if claims_conflict(units@, d) {
            let (a, b) = choose|a: int, b: int|
                0 <= a < b < units@.len() && #[trigger] units@[a].provides@.contains(d)
                    && #[trigger] units@[b].provides@.contains(d);
        }
    }
    None
}

} // verus!
