use quickcfg::stage::{find_conflicting_claim, Stager};
use quickcfg::unit::{CreateDir, Dependency, Install, SystemUnit, Unit, UnitAllocator};

fn create_dir_unit(id: usize, path: &str) -> SystemUnit {
    SystemUnit::new(id, Unit::CreateDir(CreateDir(path.to_string())))
}

#[test]
fn stages_respect_dependencies_and_thread_locality() {
    // A creates a directory, B copies into it, C installs packages on the
    // controlling thread. Expected: parallel {A}, thread-local {C}, then
    // after marking A, parallel {B}; nothing left unscheduled.
    let mut a = create_dir_unit(0, "/x");
    a.provides.push(Dependency::Dir(0));

    let mut b = SystemUnit::new(
        1,
        Unit::CopyFile(quickcfg::unit::CopyFile {
            from: "f".to_string(),
            from_modified: quickcfg::Timestamp::from_millis(0),
            to: "/x/f".to_string(),
        }),
    );
    b.dependencies.push(Dependency::Dir(0));

    let mut c = SystemUnit::new(
        2,
        Unit::Install(Install {
            package_manager: "debian".to_string(),
            all_packages: vec!["git".to_string()],
            to_install: vec!["git".to_string()],
            id: "packages".to_string(),
        }),
    );
    c.thread_local = true;

    let mut stager = Stager::new(vec![a, b, c]);

    let s1 = stager.stage().expect("first stage");
    assert!(!s1.thread_local);
    assert_eq!(s1.units.len(), 1);
    assert_eq!(s1.units[0].id, 0);

    let s2 = stager.stage().expect("second stage");
    assert!(s2.thread_local);
    assert_eq!(s2.units.len(), 1);
    assert_eq!(s2.units[0].id, 2);

    for unit in s1.units {
        stager.mark(unit);
    }
    for unit in s2.units {
        stager.mark(unit);
    }

    let s3 = stager.stage().expect("third stage");
    assert!(!s3.thread_local);
    assert_eq!(s3.units.len(), 1);
    assert_eq!(s3.units[0].id, 1);
    for unit in s3.units {
        stager.mark(unit);
    }

    assert!(stager.stage().is_none());
    assert!(stager.into_unstaged().is_empty());
}

#[test]
fn unresolvable_dependency_stays_unstaged() {
    // D depends on a unit that never exists: no stage is ever produced and
    // D is reported back, never silently dropped or silently run.
    let mut d = create_dir_unit(5, "/y");
    d.dependencies.push(Dependency::Unit(99));

    let mut stager = Stager::new(vec![d]);
    assert!(stager.stage().is_none());

    let unstaged = stager.into_unstaged();
    assert_eq!(unstaged.len(), 1);
    assert_eq!(unstaged[0].id, 5);
}

#[test]
fn marking_keeps_satisfied_entries() {
    // Once marked, a unit's id satisfies dependents in every later round.
    let mut a = create_dir_unit(0, "/x");
    a.provides.push(Dependency::Dir(0));
    let mut b = create_dir_unit(1, "/x/y");
    b.dependencies.push(Dependency::Dir(0));
    let mut c = create_dir_unit(2, "/x/y/z");
    c.dependencies.push(Dependency::Dir(0));
    c.dependencies.push(Dependency::Unit(1));

    let mut stager = Stager::new(vec![a, b, c]);
    let s1 = stager.stage().expect("a ready");
    assert_eq!(s1.units[0].id, 0);
    for unit in s1.units {
        stager.mark(unit);
    }
    let s2 = stager.stage().expect("b ready");
    assert_eq!(s2.units[0].id, 1);
    for unit in s2.units {
        stager.mark(unit);
    }
    // Dir(0) stayed satisfied: c needs both the old Dir(0) and the new Unit(1).
    let s3 = stager.stage().expect("c ready");
    assert_eq!(s3.units[0].id, 2);
    for unit in s3.units {
        stager.mark(unit);
    }
    assert!(stager.stage().is_none());
    assert!(stager.into_unstaged().is_empty());
}

#[test]
fn conflicting_resource_claim_is_detected() {
    // Two units both providing the same directory resource must be caught
    // before scheduling begins.
    let mut a = create_dir_unit(0, "/x");
    a.provides.push(Dependency::Dir(7));
    let mut b = create_dir_unit(1, "/x");
    b.provides.push(Dependency::Dir(7));

    let units = vec![a, b];
    assert_eq!(find_conflicting_claim(&units), Some(Dependency::Dir(7)));
}

#[test]
fn distinct_resource_claims_pass() {
    let mut a = create_dir_unit(0, "/x");
    a.provides.push(Dependency::Dir(7));
    let mut b = create_dir_unit(1, "/y");
    b.provides.push(Dependency::Dir(8));
    // A shared unit-dependency is not a resource claim.
    a.provides.push(Dependency::Unit(0));
    b.provides.push(Dependency::Unit(0));

    let units = vec![a, b];
    assert_eq!(find_conflicting_claim(&units), None);
}

#[test]
fn allocator_hands_out_monotonic_ids() {
    let mut allocator = UnitAllocator::new();
    assert_eq!(allocator.allocate(), 0);
    assert_eq!(allocator.allocate(), 1);
    let unit = allocator.unit(Unit::System);
    assert_eq!(unit.id, 2);
    assert!(unit.dependencies.is_empty());
    assert!(unit.provides.is_empty());
    assert!(!unit.thread_local);
    assert_eq!(allocator.allocate(), 3);
}
