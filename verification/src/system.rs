//! System-level dependencies: a declared system may require other systems by
//! name, and such requirements resolve, through transitive aliases, into
//! direct unit-level dependencies.

use vstd::prelude::*;

use crate::strutil::str_eq;
use crate::unit;
use crate::unit::UnitId;

verus! {

/// A helper structure used to resolve dependencies between systems.
#[derive(Debug)]
pub enum Dependency {
    /// Transitive dependency: other systems have to be looked up by name to
    /// fully resolve it.
    Transitive(Vec<String>),
    /// Direct dependency on a unit.
    Direct(UnitId),
    /// No dependencies.
    Nothing,
}

impl Default for Dependency {
    /// No dependencies.
    fn default() -> (r: Self)
        ensures
            r is Nothing,
    {
        Dependency::Nothing
    }
}

/// The dependency registered under `name`, if any; a later entry wins.
pub open spec fn lookup(tbl: Seq<(String, Dependency)>, name: Seq<char>) -> Option<Dependency>
    decreases tbl.len(),
{
    if tbl.len() == 0 {
        None
    } else if tbl.last().0@ == name {
        Some(tbl.last().1)
    } else {
        lookup(tbl.drop_last(), name)
    }
}

/// Whether `d` resolves to the unit id `id` within `fuel` lookups: a direct
/// dependency names it outright, a transitive dependency reaches it through
/// some named system's registered dependency.
pub open spec fn reaches(
    tbl: Seq<(String, Dependency)>,
    d: Dependency,
    id: UnitId,
    fuel: nat,
) -> bool
    decreases fuel,
{
    match d {
        Dependency::Direct(i) => i == id,
        Dependency::Nothing => false,
        Dependency::Transitive(names) => fuel > 0 && exists|k: int|
            0 <= k < names@.len() && match lookup(tbl, (#[trigger] names@[k])@) {
                Some(d2) => reaches(tbl, d2, id, (fuel - 1) as nat),
                None => false,
            },
    }
}

/// Whether the node `b` is reachable from `a` within `fuel` lookups.
pub open spec fn reach_node(
    tbl: Seq<(String, Dependency)>,
    a: Dependency,
    b: Dependency,
    fuel: nat,
) -> bool
    decreases fuel,
{
    a == b || (fuel > 0 && match a {
        Dependency::Transitive(names) => exists|k: int|
            0 <= k < names@.len() && match lookup(tbl, (#[trigger] names@[k])@) {
                Some(c) => reach_node(tbl, c, b, (fuel - 1) as nat),
                None => false,
            },
        _ => false,
    })
}

/// A reachable node that is a direct dependency resolves its id.
proof fn lemma_reach_node_direct(
    tbl: Seq<(String, Dependency)>,
    a: Dependency,
    id: UnitId,
    fuel: nat,
)
    requires
        reach_node(tbl, a, Dependency::Direct(id), fuel),
    ensures
        reaches(tbl, a, id, fuel),
    decreases fuel,
{
    if a != Dependency::Direct(id) {
        match a {
            Dependency::Transitive(names) => {
                let k = choose|k: int|
                    0 <= k < names@.len() && match lookup(tbl, (#[trigger] names@[k])@) {
                        Some(c) => reach_node(tbl, c, Dependency::Direct(id), (fuel - 1) as nat),
                        None => false,
                    };
                match lookup(tbl, names@[k]@) {
                    Some(c) => {
                        lemma_reach_node_direct(tbl, c, id, (fuel - 1) as nat);
                    },
                    None => {},
                }
            },
            _ => {},
        }
    }
}

/// Reachability extends by one lookup step at the far end.
proof fn lemma_reach_node_step(
    tbl: Seq<(String, Dependency)>,
    a: Dependency,
    names: Vec<String>,
    k: int,
    c: Dependency,
    fuel: nat,
)
    requires
        reach_node(tbl, a, Dependency::Transitive(names), fuel),
        0 <= k < names@.len(),
        lookup(tbl, names@[k]@) == Some(c),
    ensures
        reach_node(tbl, a, c, (fuel + 1) as nat),
    decreases fuel,
{
    if a == Dependency::Transitive(names) {
        assert(reach_node(tbl, c, c, fuel));
    } else {
        match a {
            Dependency::Transitive(ns) => {
                let w = choose|w: int|
                    0 <= w < ns@.len() && match lookup(tbl, (#[trigger] ns@[w])@) {
                        Some(m) => reach_node(tbl, m, Dependency::Transitive(names), (fuel
                            - 1) as nat),
                        None => false,
                    };
                match lookup(tbl, ns@[w]@) {
                    Some(m) => {
                        lemma_reach_node_step(tbl, m, names, k, c, (fuel - 1) as nat);
                    },
                    None => {},
                }
            },
            _ => {},
        }
    }
}

/// Whether node `b` is reachable from `a` in any number of lookups.
pub open spec fn node_reachable(
    tbl: Seq<(String, Dependency)>,
    a: Dependency,
    b: Dependency,
) -> bool {
    exists|f: nat| reach_node(tbl, a, b, f)
}

/// Whether `a` resolves to the unit id `id` in any number of lookups.
pub open spec fn id_reached(tbl: Seq<(String, Dependency)>, a: Dependency, id: UnitId) -> bool {
    exists|f: nat| reaches(tbl, a, id, f)
}

/// Whether the sequence of visited names holds `name`.
pub open spec fn visited_contains(visited: Seq<String>, name: Seq<char>) -> bool {
    exists|i: int| 0 <= i < visited.len() && (#[trigger] visited[i])@ == name
}

/// Whether the queue holds the node `d`.
pub open spec fn in_queue(queue: Seq<&Dependency>, d: Dependency) -> bool {
    exists|i: int| 0 <= i < queue.len() && *(#[trigger] queue[i]) == d
}

/// Whether the node `d` has been fully processed: a direct dependency's id
/// is in the output, and a transitive dependency's names are all visited.
pub open spec fn handled(
    tbl: Seq<(String, Dependency)>,
    d: Dependency,
    out: Seq<unit::Dependency>,
    visited: Seq<String>,
) -> bool {
    match d {
        Dependency::Direct(i) => out.contains(unit::Dependency::Unit(i)),
        Dependency::Nothing => true,
        Dependency::Transitive(names) => forall|k: int|
            0 <= k < names@.len() ==> visited_contains(visited, (#[trigger] names@[k])@),
    }
}

/// Once every queue entry is gone and every visited name's registered
/// dependency is handled, everything reachable from a handled node is in the
/// output.
proof fn lemma_handled_complete(
    tbl: Seq<(String, Dependency)>,
    d: Dependency,
    id: UnitId,
    fuel: nat,
    out: Seq<unit::Dependency>,
    visited: Seq<String>,
)
    requires
        handled(tbl, d, out, visited),
        forall|vi: int|
            0 <= vi < visited.len() ==> match lookup(tbl, (#[trigger] visited[vi])@) {
                Some(d2) => handled(tbl, d2, out, visited),
                None => true,
            },
        reaches(tbl, d, id, fuel),
    ensures
        out.contains(unit::Dependency::Unit(id)),
    decreases fuel,
{
    match d {
        Dependency::Direct(_) => {},
        Dependency::Nothing => {},
        Dependency::Transitive(names) => {
            let k = choose|k: int|
                0 <= k < names@.len() && match lookup(tbl, (#[trigger] names@[k])@) {
                    Some(d2) => reaches(tbl, d2, id, (fuel - 1) as nat),
                    None => false,
                };
            assert(visited_contains(visited, names@[k]@));
            let vi = choose|vi: int|
                0 <= vi < visited.len() && (#[trigger] visited[vi])@ == names@[k]@;
            match lookup(tbl, names@[k]@) {
                Some(d2) => {
                    assert(handled(tbl, d2, out, visited));
                    lemma_handled_complete(tbl, d2, id, (fuel - 1) as nat, out, visited);
                },
                None => {},
            }
        },
    }
}

/// Whether `visited` holds the given name.
fn visited_has(visited: &Vec<String>, name: &String) -> (r: bool)
    ensures
        r == visited_contains(visited@, name@),
{
    let mut i: usize = 0;
    while i < visited.len()
        invariant
            0 <= i <= visited@.len(),
            forall|k: int| 0 <= k < i ==> (#[trigger] visited@[k])@ != name@,
        decreases visited@.len() - i,
    {
        if str_eq(visited[i].as_str(), name.as_str()) {
            return true;
        }
        i = i + 1;
    }
    false
}

/// Look a system name up in the table; a later entry wins.
fn lookup_system<'a>(tbl: &'a Vec<(String, Dependency)>, name: &String) -> (r: Option<
    &'a Dependency,
>)
    ensures
        match r {
            Some(d) => lookup(tbl@, name@) == Some(*d),
            None => lookup(tbl@, name@) is None,
        },
{
    let mut i: usize = tbl.len();
    proof {
        assert(tbl@.subrange(0, tbl@.len() as int) =~= tbl@);
    }
    while i > 0
        invariant
            0 <= i <= tbl@.len(),
            lookup(tbl@, name@) == lookup(tbl@.subrange(0, i as int), name@),
        decreases i,
    {
        i = i - 1;
        proof {
            assert(tbl@.subrange(0, i + 1).drop_last() =~= tbl@.subrange(0, i as int));
            assert(tbl@.subrange(0, i + 1).last() == tbl@[i as int]);
        }
        if str_eq(tbl[i].0.as_str(), name.as_str()) {
            return Some(&tbl[i].1);
        }
    }
    proof {
        assert(tbl@.subrange(0, 0) =~= Seq::<(String, Dependency)>::empty());
    }
    None
}


/// Popping the last queue entry leaves every other entry present.
proof fn lemma_in_queue_after_pop(
    queue0: Seq<&Dependency>,
    queue1: Seq<&Dependency>,
    popped: Dependency,
)
    requires
        queue0.len() > 0,
        queue1 == queue0.drop_last(),
        *queue0.last() == popped,
    ensures
        forall|d2: Dependency| in_queue(queue0, d2) ==> in_queue(queue1, d2) || d2 == popped,
{
    assert forall|d2: Dependency| in_queue(queue0, d2) implies in_queue(queue1, d2) || d2
        == popped by {
        let qi = choose|qi: int| 0 <= qi < queue0.len() && *(#[trigger] queue0[qi]) == d2;
        if qi < queue0.len() - 1 {
            assert(queue1[qi] == queue0[qi]);
        }
    }
}

/// Everything in a prefix queue is in its extension.
proof fn lemma_in_queue_monotone(q1: Seq<&Dependency>, q2: Seq<&Dependency>)
    requires
        q1.len() <= q2.len(),
        forall|i: int| 0 <= i < q1.len() ==> #[trigger] q2[i] == q1[i],
    ensures
        forall|d2: Dependency| in_queue(q1, d2) ==> in_queue(q2, d2),
{
    assert forall|d2: Dependency| in_queue(q1, d2) implies in_queue(q2, d2) by {
        let qi = choose|qi: int| 0 <= qi < q1.len() && *(#[trigger] q1[qi]) == d2;
        assert(*q2[qi] == d2);
    }
}

/// A name visited earlier stays visited as the set grows.
proof fn lemma_visited_monotone(v1: Seq<String>, v2: Seq<String>)
    requires
        v1.len() <= v2.len(),
        forall|i: int| 0 <= i < v1.len() ==> #[trigger] v2[i] == v1[i],
    ensures
        forall|name: Seq<char>| visited_contains(v1, name) ==> visited_contains(v2, name),
{
    assert forall|name: Seq<char>| visited_contains(v1, name) implies visited_contains(
        v2,
        name,
    ) by {
        let i0 = choose|i0: int| 0 <= i0 < v1.len() && (#[trigger] v1[i0])@ == name;
        assert(v2[i0] == v1[i0]);
    }
}

/// A handled node stays handled as the output and visited set grow.
proof fn lemma_handled_monotone(
    tbl: Seq<(String, Dependency)>,
    out1: Seq<unit::Dependency>,
    out2: Seq<unit::Dependency>,
    v1: Seq<String>,
    v2: Seq<String>,
)
    requires
        out1.len() <= out2.len(),
        forall|i: int| 0 <= i < out1.len() ==> #[trigger] out2[i] == out1[i],
        v1.len() <= v2.len(),
        forall|i: int| 0 <= i < v1.len() ==> #[trigger] v2[i] == v1[i],
    ensures
        forall|d2: Dependency| handled(tbl, d2, out1, v1) ==> handled(tbl, d2, out2, v2),
{
    lemma_visited_monotone(v1, v2);
    assert forall|d2: Dependency| handled(tbl, d2, out1, v1) implies handled(
        tbl,
        d2,
        out2,
        v2,
    ) by {
        match d2 {
            Dependency::Direct(i) => {
                let oi = choose|oi: int|
                    0 <= oi < out1.len() && #[trigger] out1[oi] == unit::Dependency::Unit(i);
                assert(out2[oi] == unit::Dependency::Unit(i));
            },
            _ => {},
        }
    }
}

/// The names under which some dependency is registered.
pub open spec fn tbl_keys(tbl: Seq<(String, Dependency)>) -> Set<Seq<char>> {
    Set::new(|n: Seq<char>| lookup(tbl, n) is Some)
}

/// There are at most as many registered names as table entries.
proof fn lemma_tbl_keys_finite(tbl: Seq<(String, Dependency)>)
    ensures
        tbl_keys(tbl).finite(),
        tbl_keys(tbl).len() <= tbl.len(),
    decreases tbl.len(),
{
    if tbl.len() == 0 {
        assert(tbl_keys(tbl) =~= Set::<Seq<char>>::empty());
    } else {
        lemma_tbl_keys_finite(tbl.drop_last());
        assert(tbl_keys(tbl) =~= tbl_keys(tbl.drop_last()).insert(tbl.last().0@));
    }
}

/// The visited names that are registered in the table.
pub open spec fn seen_set(tbl: Seq<(String, Dependency)>, visited: Seq<String>) -> Set<Seq<char>> {
    Set::new(|n: Seq<char>| visited_contains(visited, n) && lookup(tbl, n) is Some)
}

/// The seen set is a subset of the registered names, hence finite and small.
proof fn lemma_seen_bounded(tbl: Seq<(String, Dependency)>, visited: Seq<String>)
    ensures
        seen_set(tbl, visited).finite(),
        seen_set(tbl, visited).len() <= tbl_keys(tbl).len(),
{
    lemma_tbl_keys_finite(tbl);
    assert(seen_set(tbl, visited).subset_of(tbl_keys(tbl)));
    vstd::set_lib::lemma_len_subset(seen_set(tbl, visited), tbl_keys(tbl));
}

/// Visiting a name extends containment by exactly that name.
proof fn lemma_visited_contains_push(visited: Seq<String>, name: String)
    ensures
        forall|n: Seq<char>|
            #[trigger] visited_contains(visited.push(name), n) <==> (visited_contains(visited, n)
                || n == name@),
{
    assert forall|n: Seq<char>| #[trigger] visited_contains(visited.push(name), n) implies (
    visited_contains(visited, n) || n == name@) by {
        let i0 = choose|i0: int|
            0 <= i0 < visited.push(name).len() && (#[trigger] visited.push(name)[i0])@ == n;
        if i0 < visited.len() {
            assert(visited[i0]@ == n);
        }
    }
    assert forall|n: Seq<char>| visited_contains(visited, n) || n == name@ implies (
    #[trigger] visited_contains(visited.push(name), n)) by {
        if visited_contains(visited, n) {
            let i0 = choose|i0: int| 0 <= i0 < visited.len() && (#[trigger] visited[i0])@ == n;
            assert(visited.push(name)[i0]@ == n);
        } else {
            assert(visited.push(name)[visited.len() as int]@ == n);
        }
    }
}

/// Visiting a fresh registered name grows the seen set by one; visiting an
/// unregistered name leaves it unchanged.
proof fn lemma_seen_push(tbl: Seq<(String, Dependency)>, visited: Seq<String>, name: String)
    ensures
        lookup(tbl, name@) is Some && !visited_contains(visited, name@) ==> seen_set(
            tbl,
            visited.push(name),
        ).len() == seen_set(tbl, visited).len() + 1,
        lookup(tbl, name@) is None ==> seen_set(tbl, visited.push(name)) == seen_set(tbl, visited),
        visited_contains(visited, name@) ==> seen_set(tbl, visited.push(name)) == seen_set(
            tbl,
            visited,
        ),
{
    lemma_visited_contains_push(visited, name);
    lemma_seen_bounded(tbl, visited);
    if lookup(tbl, name@) is Some && !visited_contains(visited, name@) {
        assert(seen_set(tbl, visited.push(name)) =~= seen_set(tbl, visited).insert(name@));
    } else {
        assert(seen_set(tbl, visited.push(name)) =~= seen_set(tbl, visited));
    }
}

impl Dependency {
    /// Resolve every unit-level dependency the current dependency stands
    /// for: the unit ids of all direct dependencies reachable through the
    /// registered systems, walked with a visited set so that shared
    /// requirements and requirement cycles terminate.
    #[verifier::loop_isolation(false)]
    #[verifier::rlimit(50)]
    #[verifier::spinoff_prover]
    pub fn resolve(&self, systems: &Vec<(String, Dependency)>) -> (r: Vec<unit::Dependency>)
        ensures
            forall|i: int| 0 <= i < r@.len() ==> (#[trigger] r@[i]) is Unit,
            forall|id: UnitId|
                #[trigger] r@.contains(unit::Dependency::Unit(id)) ==> exists|fuel: nat|
                    reaches(systems@, *self, id, fuel),
            forall|id: UnitId, fuel: nat|
                reaches(systems@, *self, id, fuel) ==> r@.contains(unit::Dependency::Unit(id)),
    {
        let mut out: Vec<unit::Dependency> = Vec::new();
        let mut visited: Vec<String> = Vec::new();
        let mut queue: Vec<&Dependency> = Vec::new();
        queue.push(self);

        proof {
            assert(reach_node(systems@, *self, *self, 0));
            assert(queue@[0] == self);
            assert(node_reachable(systems@, *self, *queue@[0]));
            assert(in_queue(queue@, *self));
            lemma_seen_bounded(systems@, visited@);
        }

        while queue.len() > 0
            invariant
                forall|qi: int|
                    0 <= qi < queue@.len() ==> node_reachable(
                        systems@,
                        *self,
                        *(#[trigger] queue@[qi]),
                    ),
                forall|oi: int|
                    0 <= oi < out@.len() ==> (#[trigger] out@[oi]) is Unit && id_reached(
                        systems@,
                        *self,
                        out@[oi]->Unit_0,
                    ),
                forall|vi: int|
                    0 <= vi < visited@.len() ==> match lookup(
                        systems@,
                        (#[trigger] visited@[vi])@,
                    ) {
                        Some(d2) => in_queue(queue@, d2) || handled(systems@, d2, out@, visited@),
                        None => true,
                    },
                in_queue(queue@, *self) || handled(systems@, *self, out@, visited@),
                seen_set(systems@, visited@).len() <= tbl_keys(systems@).len(),
            decreases queue@.len() + tbl_keys(systems@).len() - seen_set(systems@, visited@).len(),
        {
            let ghost queue0 = queue@;
            let ghost out0 = out@;
            let ghost visited0 = visited@;
            let current = match queue.pop() {
                Some(current) => current,
                None => {
                    return out;
                },
            };
            let ghost popped = *current;
            let ghost qentry = queue@;
            proof {
                assert(*queue0[queue0.len() - 1] == popped);
                assert(node_reachable(systems@, *self, popped));
                assert(qentry == queue0.drop_last());
                lemma_in_queue_after_pop(queue0, qentry, popped);
                assert forall|qi: int| 0 <= qi < queue@.len() implies node_reachable(
                    systems@,
                    *self,
                    *(#[trigger] queue@[qi]),
                ) by {
                    assert(queue@[qi] == queue0[qi]);
                }
            }

            match current {
                Dependency::Direct(i) => {
                    out.push(unit::Dependency::Unit(*i));
                    proof {
                        assert(popped == Dependency::Direct(popped->Direct_0));
                        let f = choose|f: nat| reach_node(systems@, *self, popped, f);
                        lemma_reach_node_direct(systems@, *self, popped->Direct_0, f);
                        assert(id_reached(systems@, *self, popped->Direct_0));
                        assert(out@.last() == unit::Dependency::Unit(popped->Direct_0));
                        assert(out@.contains(unit::Dependency::Unit(popped->Direct_0)));
                        assert(handled(systems@, popped, out@, visited@));
                        lemma_handled_monotone(systems@, out0, out@, visited0, visited@);
                        assert forall|oi: int| 0 <= oi < out@.len() implies (
                        #[trigger] out@[oi]) is Unit && id_reached(
                            systems@,
                            *self,
                            out@[oi]->Unit_0,
                        ) by {
                            if oi < out0.len() {
                                assert(out@[oi] == out0[oi]);
                            } else {
                                assert(out@[oi] == unit::Dependency::Unit(popped->Direct_0));
                            }
                        }
                    }
                },
                Dependency::Nothing => {
                    proof {
                        assert(handled(systems@, popped, out@, visited@));
                    }
                },
                Dependency::Transitive(names) => {
                    let ghost qf = choose|f: nat| reach_node(systems@, *self, popped, f);
                    let n = names.len();
                    let mut w: usize = 0;
                    while w < n
                        invariant
                            0 <= w <= n,
                            n == names@.len(),
                            popped == Dependency::Transitive(*names),
                            reach_node(systems@, *self, popped, qf),
                            out@ == out0,
                            qentry.len() <= queue@.len(),
                            forall|i: int| 0 <= i < qentry.len() ==> #[trigger] queue@[i] == qentry[i],
                            visited0.len() <= visited@.len(),
                            forall|i: int|
                                0 <= i < visited0.len() ==> #[trigger] visited@[i] == visited0[i],
                            queue@.len() - qentry.len() == seen_set(systems@, visited@).len()
                                - seen_set(systems@, visited0).len(),
                            seen_set(systems@, visited@).len() <= tbl_keys(systems@).len(),
                            forall|k: int|
                                0 <= k < w ==> visited_contains(visited@, (#[trigger] names@[k])@),
                            forall|qi: int|
                                0 <= qi < queue@.len() ==> node_reachable(
                                    systems@,
                                    *self,
                                    *(#[trigger] queue@[qi]),
                                ),
                            forall|vi: int|
                                0 <= vi < visited@.len() ==> match lookup(
                                    systems@,
                                    (#[trigger] visited@[vi])@,
                                ) {
                                    Some(d2) => in_queue(queue@, d2) || handled(
                                        systems@,
                                        d2,
                                        out@,
                                        visited@,
                                    ) || d2 == popped,
                                    None => true,
                                },
                            in_queue(queue@, *self) || handled(systems@, *self, out@, visited@)
                                || *self == popped,
                        decreases n - w,
                    {
                        let ghost queue1 = queue@;
                        let ghost visited1 = visited@;
                        let name = &names[w];
                        let seen = visited_has(&visited, name);
                        if !seen {
                            visited.push(name.clone());
                            proof {
                                lemma_visited_monotone(visited1, visited@);
                                lemma_visited_contains_push(visited1, names@[w as int]);
                                lemma_seen_push(systems@, visited1, names@[w as int]);
                                lemma_seen_bounded(systems@, visited@);
                                assert(visited@.last()@ == names@[w as int]@);
                                assert(visited_contains(visited@, names@[w as int]@));
                            }
                            match lookup_system(systems, name) {
                                Some(next) => {
                                    queue.push(next);
                                    proof {
                                        assert(lookup(systems@, name@) == Some(*next));
                                        assert(*name == names@[w as int]);
                                        assert(lookup(systems@, names@[w as int]@) == Some(
                                            *next,
                                        ));
                                        lemma_reach_node_step(
                                            systems@,
                                            *self,
                                            *names,
                                            w as int,
                                            *next,
                                            qf,
                                        );
                                        assert(reach_node(
                                            systems@,
                                            *self,
                                            *next,
                                            (qf + 1) as nat,
                                        ));
                                        assert(node_reachable(systems@, *self, *next));
                                        lemma_in_queue_monotone(queue1, queue@);
                                        lemma_handled_monotone(
                                            systems@,
                                            out@,
                                            out@,
                                            visited1,
                                            visited@,
                                        );
                                        assert(*queue@.last() == *next);
                                        assert(in_queue(queue@, *next));
                                        assert forall|qi: int|
                                            0 <= qi < queue@.len() implies node_reachable(
                                                systems@,
                                                *self,
                                                *(#[trigger] queue@[qi]),
                                            ) by {
                                            if qi < queue1.len() {
                                                assert(queue@[qi] == queue1[qi]);
                                            } else {
                                                assert(queue@[qi] == queue@.last());
                                            }
                                        }
                                    }
                                },
                                None => {
                                    proof {
                                        lemma_handled_monotone(
                                            systems@,
                                            out@,
                                            out@,
                                            visited1,
                                            visited@,
                                        );
                                    }
                                },
                            }
                        } else {
                            proof {
                                assert(visited_contains(visited@, names@[w as int]@));
                            }
                        }
                        w = w + 1;
                    }
                    proof {
                        assert(handled(systems@, popped, out@, visited@));
                        lemma_handled_monotone(systems@, out0, out@, visited0, visited@);
                    }
                },
            }

            proof {
                lemma_in_queue_after_pop(queue0, qentry, popped);
                assert forall|d2: Dependency| in_queue(qentry, d2) implies in_queue(
                    queue@,
                    d2,
                ) by {
                    let qi = choose|qi: int| 0 <= qi < qentry.len() && *(#[trigger] qentry[qi]) == d2;
                    assert(queue@[qi] == qentry[qi]);
                }
                lemma_handled_monotone(systems@, out0, out@, visited0, visited@);
                assert forall|vi: int| 0 <= vi < visited@.len() implies (match lookup(
                    systems@,
                    (#[trigger] visited@[vi])@,
                ) {
                    Some(d2) => in_queue(queue@, d2) || handled(systems@, d2, out@, visited@),
                    None => true,
                }) by {
                    match lookup(systems@, visited@[vi]@) {
                        Some(d2) => {
                            if vi < visited0.len() {
                                assert(visited@[vi] == visited0[vi]);
                                assert(in_queue(queue0, d2) || handled(
                                    systems@,
                                    d2,
                                    out0,
                                    visited0,
                                ));
                            }
                            if d2 == popped {
                                assert(handled(systems@, d2, out@, visited@));
                            }
                        },
                        None => {},
                    }
                }
                if *self == popped {
                    assert(handled(systems@, *self, out@, visited@));
                }
                lemma_seen_bounded(systems@, visited@);
            }
        }
        proof {
            assert(queue@.len() == 0);
            assert(!in_queue(queue@, *self));
            assert(handled(systems@, *self, out@, visited@));
            assert forall|vi: int| 0 <= vi < visited@.len() implies (match lookup(
                systems@,
                (#[trigger] visited@[vi])@,
            ) {
                Some(d2) => handled(systems@, d2, out@, visited@),
                None => true,
            }) by {
                match lookup(systems@, visited@[vi]@) {
                    Some(d2) => {
                        assert(!in_queue(queue@, d2));
                    },
                    None => {},
                }
            }
            assert forall|id: UnitId, fuel: nat|
                reaches(systems@, *self, id, fuel) implies out@.contains(
                unit::Dependency::Unit(id),
            ) by {
                lemma_handled_complete(systems@, *self, id, fuel, out@, visited@);
            }
            assert forall|id: UnitId| #[trigger] out@.contains(
                unit::Dependency::Unit(id),
            ) implies exists|fuel: nat| reaches(systems@, *self, id, fuel) by {
                let oi = choose|oi: int|
                    0 <= oi < out@.len() && out@[oi] == unit::Dependency::Unit(id);
                assert(out@[oi] is Unit);
                assert(out@[oi]->Unit_0 == id);
                assert(id_reached(systems@, *self, id));
            }
        }
        out
    }
}

} // verus!
