//! The path-claim registry: each file or directory path is claimed by at
//! most one producing unit, and always in one way. Two units claiming the
//! same path, or one path claimed both as a file and as a directory, surface
//! as configuration errors before scheduling begins.

use vstd::prelude::*;

use crate::strmap::StringMap;
use crate::strutil::str_eq;
use crate::timestamp::Timestamp;
use crate::unit::{CreateDir, Dependency, SystemUnit, Unit, UnitAllocator, UnitId};

verus! {

/// What is known about a path that a unit would write to.
#[derive(Debug, Clone, Copy, PartialEq, Eq, Structural)]
pub enum Existing {
    /// Nothing exists at the path.
    Absent,
    /// A plain file exists, last modified at the given time.
    File(Timestamp),
    /// Something else exists at the path.
    Other,
}

/// An error raised when a destination exists but is of the wrong kind.
#[derive(Debug, Clone, PartialEq, Eq)]
pub struct WrongKind {
    /// The offending path.
    pub path: String,
}

/// The modification time a copy should carry: the source's, or the
/// hierarchy's where a template was changed by newer data.
pub open spec fn copy_stamp(
    from_modified: Timestamp,
    data_modified: Option<Timestamp>,
    template: bool,
) -> Timestamp {
    if template && (data_modified matches Some(d) && from_modified.millis < d.millis) {
        data_modified->0
    } else {
        from_modified
    }
}

/// Decide whether a file should be copied to its destination: yes, with the
/// effective source timestamp, when the destination is absent or carries a
/// different timestamp; no when the timestamps agree; an error when
/// something that is not a plain file sits at the destination.
pub fn should_copy_file(
    path: &str,
    from_modified: Timestamp,
    to: Existing,
    data_modified: Option<Timestamp>,
    template: bool,
) -> (r: Result<Option<Timestamp>, WrongKind>)
    ensures
        ({
            let stamp = copy_stamp(from_modified, data_modified, template);
            match to {
                Existing::Absent => r == Ok::<Option<Timestamp>, WrongKind>(Some(from_modified)),
                Existing::File(to_modified) => r == Ok::<Option<Timestamp>, WrongKind>(
                    if stamp.millis != to_modified.millis {
                        Some(stamp)
                    } else {
                        None
                    },
                ),
                Existing::Other => (r matches Err(e) && e.path@ == path@),
            }
        }),
{
    let to_modified = match to {
        Existing::Absent => {
            return Ok(Some(from_modified));
        },
        Existing::File(to_modified) => to_modified,
        Existing::Other => {
            return Err(WrongKind { path: path.to_owned() });
        },
    };
    let stamp = match data_modified {
        Some(d) if template && from_modified.millis < d.millis => d,
        _ => from_modified,
    };
    if stamp.millis != to_modified.millis {
        Ok(Some(stamp))
    } else {
        Ok(None)
    }
}

/// Decide whether a destination directory should be created: yes when
/// nothing exists there, no when a directory already does, and an error when
/// something else sits at the path.
pub fn should_create_dir(path: &str, exists: bool, is_dir: bool) -> (r: Result<bool, WrongKind>)
    ensures
        !exists ==> r == Ok::<bool, WrongKind>(true),
        exists && is_dir ==> r == Ok::<bool, WrongKind>(false),
        exists && !is_dir ==> (r matches Err(e) && e.path@ == path@),
{
    if !exists {
        Ok(true)
    } else if is_dir {
        Ok(false)
    } else {
        Err(WrongKind { path: path.to_owned() })
    }
}

/// What sits at a path where a symlink should be.
#[derive(Debug, Clone, PartialEq, Eq)]
pub enum ExistingLink {
    /// Nothing exists at the path.
    Absent,
    /// Something exists, but it is not a symlink.
    NotSymlink,
    /// A symlink exists, pointing at the given target.
    Symlink(String),
}

/// Why a symlink cannot be set up at its path.
#[derive(Debug, Clone, PartialEq, Eq)]
pub enum SymlinkError {
    /// Something that is not a symlink sits at the path.
    NotASymlink {
        /// The occupied path.
        path: String,
    },
    /// A symlink sits at the path, but with the wrong target, and replacing
    /// it was not forced.
    WrongTarget {
        /// The occupied path.
        path: String,
        /// The target the existing symlink carries.
        actual: String,
    },
}

/// Decide whether a symlink should be set up: create it when nothing is at
/// the path, leave a correct link alone, replace a wrong link only when
/// forced (removing the old one first), and refuse anything that is not a
/// symlink. `Some(remove)` asks for the link to be made, removing an
/// existing one first when `remove` holds; `None` asks for nothing.
pub fn should_symlink(path: &str, link: &str, existing: &ExistingLink, force: bool) -> (r: Result<
    Option<bool>,
    SymlinkError,
>)
    ensures
        match existing {
            ExistingLink::Absent => r == Ok::<Option<bool>, SymlinkError>(Some(false)),
            ExistingLink::NotSymlink => (r matches Err(SymlinkError::NotASymlink { path: p })
                && p@ == path@),
            ExistingLink::Symlink(actual) => if actual@ == link@ {
                r == Ok::<Option<bool>, SymlinkError>(None)
            } else if force {
                r == Ok::<Option<bool>, SymlinkError>(Some(true))
            } else {
                (r matches Err(SymlinkError::WrongTarget { path: p, actual: a }) && p@ == path@
                    && a@ == actual@)
            },
        },
{
    match existing {
        ExistingLink::Absent => Ok(Some(false)),
        ExistingLink::NotSymlink => Err(SymlinkError::NotASymlink { path: path.to_owned() }),
        ExistingLink::Symlink(actual) => {
            if str_eq(actual.as_str(), link) {
                Ok(None)
            } else if force {
                Ok(Some(true))
            } else {
                Err(SymlinkError::WrongTarget { path: path.to_owned(), actual: actual.clone() })
            }
        },
    }
}

/// A conflicting claim: the path is already claimed, in another way.
#[derive(Debug, Clone, PartialEq, Eq)]
pub struct PathConflict {
    /// The path claimed twice.
    pub path: String,
}

/// Tracker of file-system modifications: which dependency stands for each
/// claimed path.
#[derive(Debug)]
pub struct FileSystem {
    paths: StringMap<Dependency>,
}

impl FileSystem {
    /// The registered claims.
    pub closed spec fn claims(&self) -> Map<Seq<char>, Dependency> {
        self.paths@
    }

    /// Create an empty registry.
    pub fn new() -> (r: Self)
        ensures
            r.claims() =~= Map::<Seq<char>, Dependency>::empty(),
    {
        FileSystem { paths: StringMap::new() }
    }

    /// Access or allocate the file dependency for the given path: the claim
    /// already registered when it is a file claim, a fresh one otherwise,
    /// and an error when the path is already claimed in another way.
    pub fn file_dependency(&mut self, path: &str, allocator: &mut UnitAllocator) -> (r: Result<
        Dependency,
        PathConflict,
    >)
        requires
            old(allocator).next_id() < UnitId::MAX,
        ensures
            match r {
                Ok(d) => {
                    &&& d is File
                    &&& final(self).claims() == old(self).claims().insert(path@, d)
                    &&& final(self).claims()[path@] == d
                    &&& (old(self).claims().contains_key(path@) ==> d == old(self).claims()[path@]
                        && *final(allocator) == *old(allocator))
                    &&& (!old(self).claims().contains_key(path@) ==> d == Dependency::File(
                        old(allocator).next_id(),
                    ) && final(allocator).next_id() == old(allocator).next_id() + 1)
                },
                Err(e) => {
                    &&& e.path@ == path@
                    &&& old(self).claims().contains_key(path@)
                    &&& !(old(self).claims()[path@] is File)
                    &&& *final(self) == *old(self)
                    &&& *final(allocator) == *old(allocator)
                },
            },
    {
        match self.paths.get(path) {
            Some(existing) => {
                match existing {
                    Dependency::File(_) => {
                        proof {
                            assert(self.claims().insert(path@, existing) =~= self.claims());
                        }
                        Ok(existing)
                    },
                    _ => Err(PathConflict { path: path.to_owned() }),
                }
            },
            None => {
                let id = allocator.allocate();
                let d = Dependency::File(id);
                self.paths.insert(path.to_owned(), d);
                Ok(d)
            },
        }
    }

    /// Access or allocate the directory dependency for the given path, like
    /// `file_dependency` but claiming a directory.
    pub fn dir_dependency(&mut self, path: &str, allocator: &mut UnitAllocator) -> (r: Result<
        Dependency,
        PathConflict,
    >)
        requires
            old(allocator).next_id() < UnitId::MAX,
        ensures
            match r {
                Ok(d) => {
                    &&& d is Dir
                    &&& final(self).claims() == old(self).claims().insert(path@, d)
                    &&& final(self).claims()[path@] == d
                    &&& (old(self).claims().contains_key(path@) ==> d == old(self).claims()[path@]
                        && *final(allocator) == *old(allocator))
                    &&& (!old(self).claims().contains_key(path@) ==> d == Dependency::Dir(
                        old(allocator).next_id(),
                    ) && final(allocator).next_id() == old(allocator).next_id() + 1)
                },
                Err(e) => {
                    &&& e.path@ == path@
                    &&& old(self).claims().contains_key(path@)
                    &&& !(old(self).claims()[path@] is Dir)
                    &&& *final(self) == *old(self)
                    &&& *final(allocator) == *old(allocator)
                },
            },
    {
        match self.paths.get(path) {
            Some(existing) => {
                match existing {
                    Dependency::Dir(_) => {
                        proof {
                            assert(self.claims().insert(path@, existing) =~= self.claims());
                        }
                        Ok(existing)
                    },
                    _ => Err(PathConflict { path: path.to_owned() }),
                }
            },
            None => {
                let id = allocator.allocate();
                let d = Dependency::Dir(id);
                self.paths.insert(path.to_owned(), d);
                Ok(d)
            },
        }
    }

    /// Plan the creation of one directory: nothing when the directory is
    /// already claimed as one (someone else creates it), an error when its
    /// path is claimed in another way, and otherwise a unit that creates it,
    /// provides its directory claim, and depends on the parent's registered
    /// claim where one exists.
    pub fn plan_create_dir(
        &mut self,
        dir: &str,
        parent: Option<&str>,
        allocator: &mut UnitAllocator,
    ) -> (r: Result<Option<SystemUnit>, PathConflict>)
        requires
            old(allocator).next_id() < UnitId::MAX,
        ensures
            match r {
                Ok(None) => {
                    &&& old(self).claims().contains_key(dir@)
                    &&& old(self).claims()[dir@] is Dir
                    &&& *final(self) == *old(self)
                    &&& *final(allocator) == *old(allocator)
                },
                Ok(Some(u)) => {
                    &&& !old(self).claims().contains_key(dir@)
                    &&& u.id == old(allocator).next_id()
                    &&& final(allocator).next_id() == old(allocator).next_id() + 1
                    &&& (u.unit matches Unit::CreateDir(c) && c.0@ == dir@)
                    &&& !u.thread_local
                    &&& u.provides@ == seq![Dependency::Dir(u.id)]
                    &&& u.dependencies@ == (match parent {
                        Some(p) => if old(self).claims().contains_key(p@) {
                            seq![old(self).claims()[p@]]
                        } else {
                            Seq::<Dependency>::empty()
                        },
                        None => Seq::<Dependency>::empty(),
                    })
                    &&& final(self).claims() == old(self).claims().insert(
                        dir@,
                        Dependency::Dir(u.id),
                    )
                },
                Err(e) => {
                    &&& e.path@ == dir@
                    &&& old(self).claims().contains_key(dir@)
                    &&& !(old(self).claims()[dir@] is Dir)
                    &&& *final(self) == *old(self)
                    &&& *final(allocator) == *old(allocator)
                },
            },
    {
        match self.paths.get(dir) {
            Some(existing) => {
                match existing {
                    Dependency::Dir(_) => Ok(None),
                    _ => Err(PathConflict { path: dir.to_owned() }),
                }
            },
            None => {
                let id = allocator.allocate();
                let mut unit = SystemUnit::new(id, Unit::CreateDir(CreateDir(dir.to_owned())));
                unit.provides.push(Dependency::Dir(id));
                match parent {
                    Some(p) => {
                        match self.paths.get(p) {
                            Some(claim) => {
                                unit.dependencies.push(claim);
                            },
                            None => {},
                        }
                    },
                    None => {},
                }
                self.paths.insert(dir.to_owned(), Dependency::Dir(id));
                proof {
                    assert(unit.provides@ =~= seq![Dependency::Dir(id)]);
                }
                Ok(Some(unit))
            },
        }
    }

    /// The claim registered for a path, if any.
    pub fn lookup(&self, path: &str) -> (r: Option<Dependency>)
        ensures
            r == if self.claims().contains_key(path@) {
                Some(self.claims()[path@])
            } else {
                None::<Dependency>
            },
    {
        self.paths.get(path)
    }
}

/// One path component, as component iteration yields them: the
/// current-directory marker, the parent-directory marker, or a normal
/// segment. The caller strips any root or prefix and passes whether each
/// path was absolute.
#[derive(Debug, Clone, PartialEq, Eq)]
pub enum Comp {
    /// The `.` marker.
    Current,
    /// The `..` marker.
    Parent,
    /// A normal segment.
    Normal(String),
}

/// The mathematical content of a path component.
pub enum CompModel {
    Current,
    Parent,
    Normal(Seq<char>),
}

impl View for Comp {
    type V = CompModel;

    open spec fn view(&self) -> CompModel {
        match self {
            Comp::Current => CompModel::Current,
            Comp::Parent => CompModel::Parent,
            Comp::Normal(s) => CompModel::Normal(s@),
        }
    }
}

impl DeepView for Comp {
    type V = CompModel;

    open spec fn deep_view(&self) -> CompModel {
        self.view()
    }
}

/// The components of the relative path from `base` to `path`, both taken as
/// component sequences: a shared prefix is skipped while nothing has been
/// emitted (`fresh`); a current-directory marker in the base passes the
/// matching path component through; a parent-directory marker in the base
/// defeats the walk; once the paths diverge, every remaining base component
/// becomes a parent step and the rest of the path follows.
pub open spec fn rel_from(p: Seq<CompModel>, b: Seq<CompModel>, fresh: bool) -> Option<
    Seq<CompModel>,
>
    decreases p.len() + b.len(),
{
    if p.len() == 0 && b.len() == 0 {
        Some(Seq::empty())
    } else if p.len() > 0 && b.len() == 0 {
        Some(p)
    } else if p.len() == 0 {
        match rel_from(p, b.drop_first(), false) {
            Some(rest) => Some(seq![CompModel::Parent] + rest),
            None => None,
        }
    } else if fresh && p[0] == b[0] {
        rel_from(p.drop_first(), b.drop_first(), true)
    } else if b[0] is Current {
        match rel_from(p.drop_first(), b.drop_first(), false) {
            Some(rest) => Some(seq![p[0]] + rest),
            None => None,
        }
    } else if b[0] is Parent {
        None
    } else {
        Some(Seq::new(b.len(), |k: int| CompModel::Parent) + p)
    }
}

/// The views of a sequence of components.
pub open spec fn comps_view(s: Seq<Comp>) -> Seq<CompModel> {
    s.map_values(|c: Comp| c@)
}

/// Pushing a component extends the view by its model.
proof fn lemma_comps_view_push(s: Seq<Comp>, c: Comp)
    ensures
        comps_view(s.push(c)) == comps_view(s).push(c@),
{
    assert(comps_view(s.push(c)) =~= comps_view(s).push(c@));
}

/// A copy of one component.
fn comp_clone(c: &Comp) -> (r: Comp)
    ensures
        r@ == c@,
{
    match c {
        Comp::Current => Comp::Current,
        Comp::Parent => Comp::Parent,
        Comp::Normal(s) => Comp::Normal(s.clone()),
    }
}

/// Whether two components are the same.
fn comp_eq(a: &Comp, b: &Comp) -> (r: bool)
    ensures
        r == (a@ == b@),
{
    match (a, b) {
        (Comp::Current, Comp::Current) => true,
        (Comp::Parent, Comp::Parent) => true,
        (Comp::Normal(x), Comp::Normal(y)) => str_eq(x.as_str(), y.as_str()),
        _ => false,
    }
}

/// Construct a relative path from a base directory to a target path, both
/// given as component sequences with their absoluteness. An absolute target
/// against a relative base comes back as-is; a relative target against an
/// absolute base has no relative form; otherwise the walk is `rel_from`.
#[verifier::loop_isolation(false)]
pub fn path_relative_from(
    path_absolute: bool,
    path: &Vec<Comp>,
    base_absolute: bool,
    base: &Vec<Comp>,
) -> (r: Option<Vec<Comp>>)
    ensures
        path_absolute != base_absolute ==> (if path_absolute {
            (r matches Some(v) && comps_view(v@) == comps_view(path@))
        } else {
            r is None
        }),
        path_absolute == base_absolute ==> (match r {
            Some(v) => rel_from(comps_view(path@), comps_view(base@), true) == Some(comps_view(v@)),
            None => rel_from(comps_view(path@), comps_view(base@), true) is None,
        }),
{
    let ghost p = comps_view(path@);
    let ghost b = comps_view(base@);

    if path_absolute != base_absolute {
        if path_absolute {
            let mut out: Vec<Comp> = Vec::new();
            let mut k: usize = 0;
            proof {
                assert(comps_view(out@) =~= p.subrange(0, 0));
            }
            while k < path.len()
                invariant
                    0 <= k <= path@.len(),
                    comps_view(out@) == p.subrange(0, k as int),
                decreases path@.len() - k,
            {
                let ghost pre = out@;
                out.push(comp_clone(&path[k]));
                proof {
                    lemma_comps_view_push(pre, out@[out@.len() - 1]);
                    assert(p[k as int] == path@[k as int]@);
                    assert(comps_view(out@) =~= p.subrange(0, k + 1));
                }
                k = k + 1;
            }
            proof {
                assert(p.subrange(0, p.len() as int) =~= p);
            }
            return Some(out);
        } else {
            return None;
        }
    }

    let mut out: Vec<Comp> = Vec::new();
    let mut i: usize = 0;
    let mut j: usize = 0;

    proof {
        assert(p.skip(0) =~= p);
        assert(b.skip(0) =~= b);
        assert(comps_view(out@) =~= Seq::<CompModel>::empty());
    }

    loop
        invariant
            0 <= i <= p.len(),
            0 <= j <= b.len(),
            p == comps_view(path@),
            b == comps_view(base@),
            ({
                let tail = rel_from(p.skip(i as int), b.skip(j as int), out@.len() == 0);
                match tail {
                    Some(rest) => rel_from(p, b, true) == Some(comps_view(out@) + rest),
                    None => rel_from(p, b, true) is None,
                }
            }),
        decreases (p.len() - i) + (b.len() - j),
    {
        let ghost fresh0 = out@.len() == 0;
        let ghost out0 = comps_view(out@);
        if i >= path.len() && j >= base.len() {
            proof {
                assert(comps_view(out@) + Seq::<CompModel>::empty() =~= comps_view(out@));
            }
            return Some(out);
        }
        if i < path.len() && j >= base.len() {
            let ghost before = i as int;
            let mut k: usize = i;
            while k < path.len()
                invariant
                    before <= k <= path@.len(),
                    p == comps_view(path@),
                    comps_view(out@) == out0 + p.subrange(before, k as int),
                decreases path@.len() - k,
            {
                let ghost pre = out@;
                out.push(comp_clone(&path[k]));
                proof {
                    lemma_comps_view_push(pre, out@[out@.len() - 1]);
                    assert(p[k as int] == path@[k as int]@);
                    assert(comps_view(out@) =~= out0 + p.subrange(before, k + 1));
                }
                k = k + 1;
            }
            proof {
                assert(p.subrange(before, p.len() as int) =~= p.skip(before));
            }
            return Some(out);
        }
        if i >= path.len() {
            let ghost pre = out@;
            out.push(Comp::Parent);
            proof {
                lemma_comps_view_push(pre, Comp::Parent);
                assert(p.skip(i as int).len() == 0);
                assert(b.skip(j as int).drop_first() =~= b.skip(j + 1));
                assert(comps_view(out@) =~= out0 + seq![CompModel::Parent]);
                assert(comps_view(out@) + rel_from(p.skip(i as int), b.skip(j + 1), false).unwrap()
                    =~= out0 + (seq![CompModel::Parent] + rel_from(
                    p.skip(i as int),
                    b.skip(j + 1),
                    false,
                ).unwrap()));
            }
            j = j + 1;
            continue ;
        }
        let same = out.len() == 0 && comp_eq(&path[i], &base[j]);
        proof {
            assert(p.skip(i as int)[0] == p[i as int]);
            assert(b.skip(j as int)[0] == b[j as int]);
            assert(p.skip(i as int).drop_first() =~= p.skip(i + 1));
            assert(b.skip(j as int).drop_first() =~= b.skip(j + 1));
        }
        if same {
            i = i + 1;
            j = j + 1;
            continue ;
        }
        let current = match &base[j] {
            Comp::Current => true,
            _ => false,
        };
        if current {
            let ghost pre = out@;
            out.push(comp_clone(&path[i]));
            proof {
                lemma_comps_view_push(pre, out@[out@.len() - 1]);
                assert(p[i as int] == path@[i as int]@);
                assert(comps_view(out@) =~= out0 + seq![p[i as int]]);
                match rel_from(p.skip(i + 1), b.skip(j + 1), false) {
                    Some(rest) => {
                        assert(comps_view(out@) + rest =~= out0 + (seq![p[i as int]] + rest));
                    },
                    None => {},
                }
            }
            i = i + 1;
            j = j + 1;
            continue ;
        }
        let parent = match &base[j] {
            Comp::Parent => true,
            _ => false,
        };
        if parent {
            return None;
        }
        let ghost before_i = i as int;
        let ghost pre = out@;
        out.push(Comp::Parent);
        proof {
            lemma_comps_view_push(pre, Comp::Parent);
        }
        let mut k: usize = j + 1;
        while k < base.len()
            invariant
                j + 1 <= k <= base@.len(),
                b == comps_view(base@),
                comps_view(out@) == out0 + Seq::new((k - j) as nat, |t: int| CompModel::Parent),
            decreases base@.len() - k,
        {
            let ghost pre = out@;
            out.push(Comp::Parent);
            proof {
                lemma_comps_view_push(pre, Comp::Parent);
                assert(comps_view(out@) =~= out0 + Seq::new(
                    (k + 1 - j) as nat,
                    |t: int| CompModel::Parent,
                ));
            }
            k = k + 1;
        }
        let ghost parents = Seq::new((b.len() - j) as nat, |t: int| CompModel::Parent);
        let mut m: usize = i;
        while m < path.len()
            invariant
                before_i <= m <= path@.len(),
                p == comps_view(path@),
                comps_view(out@) == out0 + parents + p.subrange(before_i, m as int),
            decreases path@.len() - m,
        {
            let ghost pre = out@;
            out.push(comp_clone(&path[m]));
            proof {
                lemma_comps_view_push(pre, out@[out@.len() - 1]);
                assert(p[m as int] == path@[m as int]@);
                assert(comps_view(out@) =~= out0 + parents + p.subrange(before_i, m + 1));
            }
            m = m + 1;
        }
        proof {
            assert(p.subrange(before_i, p.len() as int) =~= p.skip(before_i));
            assert(Seq::new(b.skip(j as int).len(), |t: int| CompModel::Parent) =~= parents);
            assert(comps_view(out@) =~= out0 + (parents + p.skip(before_i)));
        }
        return Some(out);
    }
}

} // verus!
