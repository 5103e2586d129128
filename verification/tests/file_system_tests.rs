use quickcfg::file_system::{
    path_relative_from, should_copy_file, should_create_dir, should_symlink, Comp, Existing,
    ExistingLink, FileSystem, SymlinkError,
};
use quickcfg::unit::{Dependency, UnitAllocator};
use quickcfg::Timestamp;

fn comps(raw: &[&str]) -> Vec<Comp> {
    raw.iter().map(|s| Comp::Normal(s.to_string())).collect()
}

#[test]
fn path_claims_are_idempotent_and_exclusive() {
    let mut fs = FileSystem::new();
    let mut allocator = UnitAllocator::new();

    let d1 = fs.dir_dependency("/x", &mut allocator).unwrap();
    assert!(matches!(d1, Dependency::Dir(_)));

    // Claiming the same directory again yields the very same dependency and
    // allocates nothing new.
    let d2 = fs.dir_dependency("/x", &mut allocator).unwrap();
    assert_eq!(d1, d2);
    assert_eq!(allocator.current(), 1);

    // Claiming the same path as a file is a configuration error.
    let conflict = fs.file_dependency("/x", &mut allocator).unwrap_err();
    assert_eq!(conflict.path, "/x");

    // A different path is a fresh claim.
    let f = fs.file_dependency("/x/f", &mut allocator).unwrap();
    assert!(matches!(f, Dependency::File(_)));
    assert_ne!(f, d1);

    assert_eq!(fs.lookup("/x"), Some(d1));
    assert_eq!(fs.lookup("/nothing"), None);
}

#[test]
fn copy_decision_follows_timestamps() {
    let from = Timestamp::from_millis(1000);

    // Absent destination: copy with the source timestamp.
    assert_eq!(
        should_copy_file("/x", from, Existing::Absent, None, false),
        Ok(Some(from))
    );

    // Same timestamp: nothing to do.
    assert_eq!(
        should_copy_file("/x", from, Existing::File(from), None, false),
        Ok(None)
    );

    // Different timestamp: copy.
    assert_eq!(
        should_copy_file("/x", from, Existing::File(Timestamp::from_millis(500)), None, false),
        Ok(Some(from))
    );

    // A template whose data changed later carries the data's timestamp.
    let data = Timestamp::from_millis(2000);
    assert_eq!(
        should_copy_file("/x", from, Existing::File(from), Some(data), true),
        Ok(Some(data))
    );

    // Something that is not a plain file in the way is an error.
    assert!(should_copy_file("/x", from, Existing::Other, None, false).is_err());
}

#[test]
fn create_dir_decision() {
    assert_eq!(should_create_dir("/d", false, false), Ok(true));
    assert_eq!(should_create_dir("/d", true, true), Ok(false));
    assert!(should_create_dir("/d", true, false).is_err());
}

#[test]
fn symlink_decision() {
    // Nothing at the path: create, no removal.
    assert_eq!(
        should_symlink("/p", "/t", &ExistingLink::Absent, false),
        Ok(Some(false))
    );
    // The right link is already in place: nothing to do.
    assert_eq!(
        should_symlink("/p", "/t", &ExistingLink::Symlink("/t".to_string()), false),
        Ok(None)
    );
    // A wrong link is replaced only when forced.
    assert_eq!(
        should_symlink("/p", "/t", &ExistingLink::Symlink("/old".to_string()), true),
        Ok(Some(true))
    );
    assert_eq!(
        should_symlink("/p", "/t", &ExistingLink::Symlink("/old".to_string()), false),
        Err(SymlinkError::WrongTarget { path: "/p".to_string(), actual: "/old".to_string() })
    );
    // Anything that is not a symlink is refused.
    assert_eq!(
        should_symlink("/p", "/t", &ExistingLink::NotSymlink, true),
        Err(SymlinkError::NotASymlink { path: "/p".to_string() })
    );
}

#[test]
fn planning_directory_chains() {
    let mut fs = FileSystem::new();
    let mut allocator = UnitAllocator::new();

    let a = fs
        .plan_create_dir("/x", None, &mut allocator)
        .unwrap()
        .expect("fresh dir plans a unit");
    assert_eq!(a.provides, vec![Dependency::Dir(a.id)]);
    assert!(a.dependencies.is_empty());

    // The child depends on the parent's registered claim.
    let b = fs
        .plan_create_dir("/x/y", Some("/x"), &mut allocator)
        .unwrap()
        .expect("fresh child plans a unit");
    assert_eq!(b.dependencies, vec![Dependency::Dir(a.id)]);

    // A directory someone already creates plans nothing.
    assert!(fs.plan_create_dir("/x", None, &mut allocator).unwrap().is_none());

    // A path claimed as a file cannot be created as a directory.
    fs.file_dependency("/x/f", &mut allocator).unwrap();
    assert!(fs.plan_create_dir("/x/f", Some("/x"), &mut allocator).is_err());
}

#[test]
fn relative_paths_between_directories() {
    let baz = comps(&["foo", "bar", "baz"]);
    let bar = comps(&["foo", "bar"]);
    let quux = comps(&["foo", "bar", "quux"]);

    assert_eq!(path_relative_from(true, &bar, true, &baz), Some(vec![Comp::Parent]));
    assert_eq!(path_relative_from(true, &baz, true, &bar), Some(comps(&["baz"])));
    assert_eq!(
        path_relative_from(true, &quux, true, &baz),
        Some(vec![Comp::Parent, Comp::Normal("quux".to_string())])
    );
    assert_eq!(
        path_relative_from(true, &baz, true, &quux),
        Some(vec![Comp::Parent, Comp::Normal("baz".to_string())])
    );
    assert_eq!(path_relative_from(true, &bar, true, &quux), Some(vec![Comp::Parent]));

    // Mixed absoluteness: an absolute target comes back as-is, a relative
    // one has no relative form.
    assert_eq!(path_relative_from(true, &baz, false, &bar), Some(comps(&["foo", "bar", "baz"])));
    assert_eq!(path_relative_from(false, &baz, true, &bar), None);

    // A parent marker in the base defeats the walk.
    let dotted = vec![Comp::Parent];
    assert_eq!(path_relative_from(true, &baz, true, &dotted), None);
}
