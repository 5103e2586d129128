//! Units of work: atomic, idempotent-intended actions together with the
//! scheduling metadata (identity, dependencies, provided resources) that the
//! stager consumes.

use vstd::prelude::*;

verus! {

/// The identifier of a unit, unique for the lifetime of one run.
pub type UnitId = usize;

/// A reference to something a unit requires before it can run, or provides by
/// completing: another unit directly, or a file or directory resource keyed by
/// the id of the unit responsible for producing it.
#[derive(Debug, Clone, Copy, PartialEq, Eq, Hash, Structural)]
pub enum Dependency {
    /// Someone providing a file.
    File(UnitId),
    /// Someone providing a directory.
    Dir(UnitId),
    /// Direct dependency on another unit.
    Unit(UnitId),
}

/// An error raised when a template destination could not be rendered.
#[derive(Debug, Clone, PartialEq, Eq)]
pub struct RenderError(pub String);

/// Issues unique, monotonically increasing unit ids and wraps payloads into
/// schedulable units.
#[derive(Debug, Default)]
pub struct UnitAllocator {
    current: UnitId,
}

impl UnitAllocator {
    /// The next id this allocator will hand out.
    pub closed spec fn next_id(&self) -> UnitId {
        self.current
    }

    /// Construct a new allocator, starting at id 0.
    pub fn new() -> (r: Self)
        ensures
            r.next_id() == 0,
    {
        UnitAllocator { current: 0 }
    }

    /// The next id this allocator will hand out.
    pub fn current(&self) -> (r: UnitId)
        ensures
            r == self.next_id(),
    {
        self.current
    }

    /// Allocate a new unit id: the counter's current value, which is then
    /// incremented.
    pub fn allocate(&mut self) -> (r: UnitId)
        requires
            old(self).next_id() < UnitId::MAX,
        ensures
            r == old(self).next_id(),
            final(self).next_id() == old(self).next_id() + 1,
    {
        let id = self.current;
        self.current = self.current + 1;
        id
    }

    /// Create a new system unit around the given payload, with a fresh id,
    /// no dependencies, no provides, and not thread-local.
    pub fn unit(&mut self, unit: Unit) -> (r: SystemUnit)
        requires
            old(self).next_id() < UnitId::MAX,
        ensures
            final(self).next_id() == old(self).next_id() + 1,
            r.id == old(self).next_id(),
            r.unit == unit,
            r.dependencies@ =~= Seq::<Dependency>::empty(),
            r.provides@ =~= Seq::<Dependency>::empty(),
            !r.thread_local,
    {
        let id = self.allocate();
        SystemUnit::new(id, unit)
    }
}

/// A single unit of work.
#[derive(Debug)]
pub enum Unit {
    /// A no-op marker unit, used purely to express that a whole group of
    /// units completed.
    System,
    CopyFile(CopyFile),
    CopyTemplate(CopyTemplate),
    Symlink(Symlink),
    CreateDir(CreateDir),
    Install(Install),
    Download(Download),
    AddMode(AddMode),
    RunOnce(RunOnce),
    GitClone(GitClone),
    GitUpdate(GitUpdate),
}

/// A unit coupled with its scheduling metadata.
#[derive(Debug)]
pub struct SystemUnit {
    /// The id of this unit.
    pub id: UnitId,
    /// Dependencies that must all be satisfied before this unit may run.
    pub dependencies: Vec<Dependency>,
    /// Dependencies that this unit's success satisfies.
    pub provides: Vec<Dependency>,
    /// Whether the unit needs access to the main thread, e.g. for user input.
    pub thread_local: bool,
    /// The unit of work.
    pub unit: Unit,
}

impl SystemUnit {
    /// Create a new system unit with the given id, no dependencies, no
    /// provides, and not thread-local.
    pub fn new(id: UnitId, unit: Unit) -> (r: Self)
        ensures
            r.id == id,
            r.unit == unit,
            r.dependencies@ =~= Seq::<Dependency>::empty(),
            r.provides@ =~= Seq::<Dependency>::empty(),
            !r.thread_local,
    {
        SystemUnit { id, dependencies: Vec::new(), provides: Vec::new(), thread_local: false, unit }
    }
}

/// The configuration to create a single directory.
#[derive(Debug)]
pub struct CreateDir(pub String);

/// The configuration for a unit to copy a single file.
#[derive(Debug)]
pub struct CopyFile {
    /// The source file.
    pub from: String,
    /// Source file modification time.
    pub from_modified: crate::timestamp::Timestamp,
    /// The destination file.
    pub to: String,
}

/// The configuration for a unit to render a template to a file.
#[derive(Debug)]
pub struct CopyTemplate {
    /// The source file.
    pub from: String,
    /// Source file modification time.
    pub from_modified: crate::timestamp::Timestamp,
    /// The destination file.
    pub to: String,
    /// If the destination file exists, its content is assumed unchanged.
    pub to_exists: bool,
}

/// The configuration for a unit to create a symlink.
#[derive(Debug)]
pub struct Symlink {
    /// `true` if the destination file needs to be removed first.
    pub remove: bool,
    /// Destination file to create.
    pub path: String,
    /// Link target to set up.
    pub link: String,
}

/// Install a number of packages.
#[derive(Debug)]
pub struct Install {
    /// Name of the package manager to install through.
    pub package_manager: String,
    /// Every declared package, installed or not, hashed to detect changes.
    pub all_packages: Vec<String>,
    /// The packages that actually need installing.
    pub to_install: Vec<String>,
    /// State key for this group of packages.
    pub id: String,
}

/// Download the given URL and write it to the given path.
#[derive(Debug)]
pub struct Download(pub String, pub String);

/// Mode modifications to apply. Each maps, deliberately, to its unix
/// permission bit: read is 4, write is 2, execute is 1.
#[derive(Debug, Clone, Copy, PartialEq, Eq, Structural)]
pub enum Mode {
    Execute,
    Read,
    Write,
}

/// The permission bit of one mode, following the unix convention: read 4,
/// write 2, execute 1.
pub open spec fn spec_mode_bit(mode: Mode) -> u32 {
    match mode {
        Mode::Execute => 1,
        Mode::Read => 4,
        Mode::Write => 2,
    }
}

/// The permission bit of one mode, following the unix convention: read 4,
/// write 2, execute 1.
#[verifier::when_used_as_spec(spec_mode_bit)]
pub fn mode_bit(mode: Mode) -> (r: u32)
    ensures
        r == spec_mode_bit(mode),
{
    match mode {
        Mode::Execute => 1,
        Mode::Read => 4,
        Mode::Write => 2,
    }
}

/// Change the permissions of the given file, by adding mode bits on top of
/// the existing ones.
#[derive(Debug)]
pub struct AddMode {
    /// The path whose permissions to change.
    pub path: String,
    user: u32,
    group: u32,
    other: u32,
}

impl AddMode {
    /// The path whose permissions this unit changes.
    pub closed spec fn path_spec(&self) -> String {
        self.path
    }

    /// The mode bits added for the owning user.
    pub closed spec fn user_bits(&self) -> u32 {
        self.user
    }

    /// The mode bits added for the owning group.
    pub closed spec fn group_bits(&self) -> u32 {
        self.group
    }

    /// The mode bits added for everyone else.
    pub closed spec fn other_bits(&self) -> u32 {
        self.other
    }

    /// Each permission triplet stays within its three bits.
    pub open spec fn wf(&self) -> bool {
        self.user_bits() <= 7 && self.group_bits() <= 7 && self.other_bits() <= 7
    }

    /// Whether the triplets are within range; holds for anything built with
    /// the builder methods.
    pub fn is_wf(&self) -> (r: bool)
        ensures
            r == self.wf(),
    {
        self.user <= 7 && self.group <= 7 && self.other <= 7
    }

    /// Create a new add-mode unit with no bits set.
    pub fn new(path: String) -> (r: Self)
        ensures
            r.path_spec() == path,
            r.user_bits() == 0,
            r.group_bits() == 0,
            r.other_bits() == 0,
            r.wf(),
    {
        AddMode { path, user: 0, group: 0, other: 0 }
    }

    /// If the added mode makes the file executable by anyone.
    pub fn is_executable(&self) -> (r: bool)
        ensures
            r == (self.user_bits() & 1 != 0 || self.group_bits() & 1 != 0 || self.other_bits()
                & 1 != 0),
    {
        if self.user & mode_bit(Mode::Execute) != 0 {
            return true;
        }

        if self.group & mode_bit(Mode::Execute) != 0 {
            return true;
        }

        if self.other & mode_bit(Mode::Execute) != 0 {
            return true;
        }

        false
    }

    /// Add to the user mode.
    pub fn user(self, mode: Mode) -> (r: Self)
        ensures
            r.user_bits() == self.user_bits() | spec_mode_bit(mode),
            r.group_bits() == self.group_bits(),
            r.other_bits() == self.other_bits(),
            r.path_spec() == self.path_spec(),
            self.wf() ==> r.wf(),
    {
        proof {
            lemma_or_bit_small(self.user, spec_mode_bit(mode));
        }
        let user = self.user | mode_bit(mode);
        AddMode { user, ..self }
    }

    /// Add to the group mode.
    pub fn group(self, mode: Mode) -> (r: Self)
        ensures
            r.group_bits() == self.group_bits() | spec_mode_bit(mode),
            r.user_bits() == self.user_bits(),
            r.other_bits() == self.other_bits(),
            r.path_spec() == self.path_spec(),
            self.wf() ==> r.wf(),
    {
        proof {
            lemma_or_bit_small(self.group, spec_mode_bit(mode));
        }
        let group = self.group | mode_bit(mode);
        AddMode { group, ..self }
    }

    /// Add to the other mode.
    pub fn other(self, mode: Mode) -> (r: Self)
        ensures
            r.other_bits() == self.other_bits() | spec_mode_bit(mode),
            r.user_bits() == self.user_bits(),
            r.group_bits() == self.group_bits(),
            r.path_spec() == self.path_spec(),
            self.wf() ==> r.wf(),
    {
        proof {
            lemma_or_bit_small(self.other, spec_mode_bit(mode));
        }
        let other = self.other | mode_bit(mode);
        AddMode { other, ..self }
    }

    /// Convert into a unix mode word: user, group, and other triplets packed
    /// from the high end down.
    pub fn unix_mode(&self) -> (r: u32)
        requires
            self.wf(),
        ensures
            r == self.user_bits() * 64 + self.group_bits() * 8 + self.other_bits(),
    {
        self.user * 64 + self.group * 8 + self.other
    }
}

/// Adding a permission bit to a triplet that fits in three bits keeps it in
/// three bits.
proof fn lemma_or_bit_small(x: u32, bit: u32)
    requires
        bit == 1 || bit == 2 || bit == 4,
    ensures
        x <= 7 ==> (x | bit) <= 7,
        x | bit == x || x | bit > x,
{
    assert(x <= 7 ==> (x | bit) <= 7) by (bit_vector)
        requires
            bit == 1 || bit == 2 || bit == 4,
    ;
    assert(x | bit == x || x | bit > x) by (bit_vector)
        requires
            bit == 1 || bit == 2 || bit == 4,
    ;
}

/// Run the given executable once.
#[derive(Debug)]
pub struct RunOnce {
    /// State key to mark once run.
    pub id: String,
    /// Path to run.
    pub path: String,
    /// Run using a shell.
    pub shell: bool,
    /// Arguments to add when running the command.
    pub args: Vec<String>,
}

impl RunOnce {
    /// Construct a new run-once unit: not through a shell, with no arguments.
    pub fn new(id: String, path: String) -> (r: RunOnce)
        ensures
            r.id == id,
            r.path == path,
            !r.shell,
            r.args@ =~= Seq::<String>::empty(),
    {
        RunOnce { id, path, shell: false, args: Vec::new() }
    }
}

/// Clone a git repository.
#[derive(Debug)]
pub struct GitClone {
    /// State key of the thing being cloned.
    pub id: String,
    /// Remote to clone.
    pub remote: String,
    /// Where the repository goes.
    pub path: String,
}

/// Update a git repository.
#[derive(Debug)]
pub struct GitUpdate {
    /// State key of the thing being updated.
    pub id: String,
    /// The repository to update.
    pub path: String,
    /// If the update should be forced.
    pub force: bool,
}

} // verus!
