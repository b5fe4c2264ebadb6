use vstd::prelude::*;
use vstd::string::*;
use crate::text::{texts, with_text, same_text};
use crate::uri::ClientVariant;

verus! {

/// Directory under the per-user data directory that this application owns.
pub const ROOT_NAME: &'static str = "Syntax";

pub const VERSIONS_NAME: &'static str = "Versions";

pub const DOWNLOADS_NAME: &'static str = "Downloads";

/// File whose presence, with the default executable, marks a version directory complete.
pub const SETTINGS_MARKER: &'static str = "AppSettings.xml";

/// Executable of the default client variant.
pub const CLIENT_EXECUTABLE: &'static str = "SyntaxPlayerBeta.exe";

pub const VARIANT_A_DIR: &'static str = "Client2018";

pub const VARIANT_B_DIR: &'static str = "Client2020";

/// One entry of a directory listing.
#[derive(Debug)]
pub struct DirEntry {
    pub name: String,
    pub is_dir: bool,
}

// ---------------------------------------------------------------- paths
// A path is the list of its components; the first may hold a whole prefix
// such as a drive or the user's data directory.

/// Relies on dirs::data_local_dir: the user's local data directory, when the
/// platform has one, taken apart into its path components.
#[verifier::external_body]
fn local_data_dir() -> (r: Option<Vec<String>>) {
    dirs::data_local_dir().map(
        |p| p.components().map(|c| c.as_os_str().to_string_lossy().into_owned()).collect(),
    )
}

/// The installation root below the user's local data directory, or `None`
/// when the platform has no such directory.
pub fn get_installation_directory() -> (r: Option<Vec<String>>)
    ensures
        r matches Some(p) ==> texts(p@).len() >= 1 && texts(p@).last() == ROOT_NAME@,
{
    match local_data_dir() {
        Some(base) => Some(installation_directory_under(&base)),
        None => None,
    }
}

/// The installation root under the per-user data directory `base`.
pub fn installation_directory_under(base: &Vec<String>) -> (r: Vec<String>)
    ensures
        texts(r@) == texts(base@).push(ROOT_NAME@),
{
    with_text(base, ROOT_NAME)
}

/// The directory that holds one subdirectory per version.
pub fn versions_directory(root: &Vec<String>) -> (r: Vec<String>)
    ensures
        texts(r@) == texts(root@).push(VERSIONS_NAME@),
{
    with_text(root, VERSIONS_NAME)
}

/// Scratch directory for downloads.
pub fn downloads_directory(root: &Vec<String>) -> (r: Vec<String>)
    ensures
        texts(r@) == texts(root@).push(DOWNLOADS_NAME@),
{
    with_text(root, DOWNLOADS_NAME)
}

/// The directory of one version.
pub fn version_directory(root: &Vec<String>, version: &str) -> (r: Vec<String>)
    ensures
        texts(r@) == texts(root@).push(VERSIONS_NAME@).push(version@),
{
    let versions = versions_directory(root);
    with_text(&versions, version)
}

/// The settings marker inside a version directory.
pub fn settings_marker_path(version_dir: &Vec<String>) -> (r: Vec<String>)
    ensures
        texts(r@) == texts(version_dir@).push(SETTINGS_MARKER@),
{
    with_text(version_dir, SETTINGS_MARKER)
}

/// Where the executable of a client variant lies, below its version directory.
pub open spec fn variant_executable_spec(dir: Seq<Seq<char>>, variant: ClientVariant) -> Seq<
    Seq<char>,
> {
    match variant {
        ClientVariant::Default => dir.push(CLIENT_EXECUTABLE@),
        ClientVariant::VariantA => dir.push(VARIANT_A_DIR@).push(CLIENT_EXECUTABLE@),
        ClientVariant::VariantB => dir.push(VARIANT_B_DIR@).push(CLIENT_EXECUTABLE@),
    }
}

/// The executable of `variant` inside `version_dir`.
pub fn variant_executable(version_dir: &Vec<String>, variant: ClientVariant) -> (r: Vec<String>)
    ensures
        texts(r@) == variant_executable_spec(texts(version_dir@), variant),
{
    match variant {
        ClientVariant::Default => with_text(version_dir, CLIENT_EXECUTABLE),
        ClientVariant::VariantA => {
            let d = with_text(version_dir, VARIANT_A_DIR);
            with_text(&d, CLIENT_EXECUTABLE)
        },
        ClientVariant::VariantB => {
            let d = with_text(version_dir, VARIANT_B_DIR);
            with_text(&d, CLIENT_EXECUTABLE)
        },
    }
}

/// Whether path `inner` lies strictly below path `outer`.
pub open spec fn strictly_below(inner: Seq<Seq<char>>, outer: Seq<Seq<char>>) -> bool {
    outer.len() < inner.len() && inner.take(outer.len() as int) == outer
}

/// Whether `inner` lies strictly below `outer`.
pub fn is_strictly_below(inner: &Vec<String>, outer: &Vec<String>) -> (r: bool)
    ensures
        r == strictly_below(texts(inner@), texts(outer@)),
{
    if outer.len() >= inner.len() {
        return false;
    }
    let mut i: usize = 0;
    while i < outer.len()
        invariant
            outer@.len() < inner@.len(),
            i <= outer@.len(),
            forall|j: int| 0 <= j < i ==> inner@[j]@ == outer@[j]@,
        decreases outer@.len() - i,
    {
        if !same_text(inner[i].as_str(), outer[i].as_str()) {
            assert(texts(inner@).take(outer@.len() as int)[i as int] != texts(outer@)[i as int]);
            return false;
        }
        i = i + 1;
    }
    assert(texts(inner@).take(outer@.len() as int) =~= texts(outer@));
    true
}

/// The file name of `exe` when it lies directly inside `dir`.
pub open spec fn name_directly_in(exe: Seq<Seq<char>>, dir: Seq<Seq<char>>) -> Option<Seq<char>> {
    if exe.len() == dir.len() + 1 && exe.take(dir.len() as int) == dir {
        Some(exe.last())
    } else {
        None
    }
}

/// The file name of the running executable `exe` when it lies directly in `dir`.
pub fn running_name_in(exe: &Vec<String>, dir: &Vec<String>) -> (r: Option<String>)
    ensures
        match r {
            Some(n) => name_directly_in(texts(exe@), texts(dir@)) == Some(n@),
            None => name_directly_in(texts(exe@), texts(dir@)) is None,
        },
{
    if dir.len() < exe.len() && exe.len() - dir.len() == 1 && is_strictly_below(exe, dir) {
        Some(exe[dir.len()].clone())
    } else {
        None
    }
}

// ---------------------------------------------------------------- completeness

/// Whether a listing holds an entry named `name`.
pub open spec fn has_entry(entries: Seq<DirEntry>, name: Seq<char>) -> bool {
    exists|i: int| 0 <= i < entries.len() && #[trigger] entries[i].name@ == name
}

/// A version directory is complete when both the settings marker and the
/// default executable are in it.
pub open spec fn complete_listing(entries: Seq<DirEntry>) -> bool {
    has_entry(entries, SETTINGS_MARKER@) && has_entry(entries, CLIENT_EXECUTABLE@)
}

/// Whether a listing holds an entry named `name`.
pub fn contains_entry(entries: &Vec<DirEntry>, name: &str) -> (r: bool)
    ensures
        r == has_entry(entries@, name@),
{
    let mut i: usize = 0;
    while i < entries.len()
        invariant
            i <= entries@.len(),
            forall|j: int| 0 <= j < i ==> entries@[j].name@ != name@,
        decreases entries@.len() - i,
    {
        if same_text(entries[i].name.as_str(), name) {
            return true;
        }
        i = i + 1;
    }
    false
}

/// Whether the listing of a version directory shows a complete installation:
/// true exactly when the settings marker and the default executable both exist.
pub fn is_complete(entries: &Vec<DirEntry>) -> (r: bool)
    ensures
        r == complete_listing(entries@),
        r ==> has_entry(entries@, SETTINGS_MARKER@) && has_entry(entries@, CLIENT_EXECUTABLE@),
{
    contains_entry(entries, SETTINGS_MARKER) && contains_entry(entries, CLIENT_EXECUTABLE)
}

// ---------------------------------------------------------------- repair

/// What reconciliation does to a version directory.
#[derive(Debug)]
pub struct RepairPlan {
    /// Files to delete, by name.
    pub remove_files: Vec<String>,
    /// Subdirectories to delete with all they hold, by name.
    pub remove_dirs: Vec<String>,
    /// Whether the assets must be fetched again afterwards.
    pub fetch_assets: bool,
}

pub struct RepairView {
    pub remove_files: Seq<Seq<char>>,
    pub remove_dirs: Seq<Seq<char>>,
    pub fetch_assets: bool,
}

impl View for RepairPlan {
    type V = RepairView;

    open spec fn view(&self) -> RepairView {
        RepairView {
            remove_files: texts(self.remove_files@),
            remove_dirs: texts(self.remove_dirs@),
            fetch_assets: self.fetch_assets,
        }
    }
}

/// The plan that deletes nothing and fetches nothing.
pub open spec fn no_repair() -> RepairView {
    RepairView { remove_files: Seq::empty(), remove_dirs: Seq::empty(), fetch_assets: false }
}

/// Reconciliation of a version directory with listing `entries`, where
/// `keep` names the running executable if it lies there: nothing when the
/// directory is complete; else every file but `keep`, every subdirectory,
/// and a fresh fetch.
pub open spec fn repair_of(entries: Seq<DirEntry>, keep: Option<Seq<char>>) -> RepairView {
    if complete_listing(entries) {
        no_repair()
    } else {
        RepairView {
            remove_files: files_except(entries, keep),
            remove_dirs: subdirectories(entries),
            fetch_assets: true,
        }
    }
}

/// Names of the files of a listing, save `keep`.
pub open spec fn files_except(entries: Seq<DirEntry>, keep: Option<Seq<char>>) -> Seq<Seq<char>>
    decreases entries.len(),
{
    if entries.len() == 0 {
        Seq::empty()
    } else {
        let rest = files_except(entries.drop_last(), keep);
        let e = entries.last();
        if !e.is_dir && keep != Some(e.name@) {
            rest.push(e.name@)
        } else {
            rest
        }
    }
}

/// Names of the subdirectories of a listing.
pub open spec fn subdirectories(entries: Seq<DirEntry>) -> Seq<Seq<char>>
    decreases entries.len(),
{
    if entries.len() == 0 {
        Seq::empty()
    } else {
        let rest = subdirectories(entries.drop_last());
        if entries.last().is_dir {
            rest.push(entries.last().name@)
        } else {
            rest
        }
    }
}

/// Entries of a listing that survive the removal of the named files and directories.
pub open spec fn survivors(
    entries: Seq<DirEntry>,
    files: Seq<Seq<char>>,
    dirs: Seq<Seq<char>>,
) -> Seq<DirEntry>
    decreases entries.len(),
{
    if entries.len() == 0 {
        Seq::empty()
    } else {
        let rest = survivors(entries.drop_last(), files, dirs);
        let e = entries.last();
        if (e.is_dir && dirs.contains(e.name@)) || (!e.is_dir && files.contains(e.name@)) {
            rest
        } else {
            rest.push(e)
        }
    }
}

/// Builds the reconciliation plan for a version directory whose listing is
/// `entries`; `running` names the running executable when it lies in that
/// directory. A complete directory is left alone. Otherwise every file but
/// the running executable and every subdirectory is deleted, and the assets
/// are fetched again.
pub fn plan_repair(entries: &Vec<DirEntry>, running: Option<&str>) -> (r: RepairPlan)
    ensures
        r@ == repair_of(
            entries@,
            match running {
                Some(n) => Some(n@),
                None => None,
            },
        ),
{
    let mut plan = RepairPlan { remove_files: Vec::new(), remove_dirs: Vec::new(), fetch_assets: false };
    if is_complete(entries) {
        assert(texts(plan.remove_files@) =~= Seq::<Seq<char>>::empty());
        assert(texts(plan.remove_dirs@) =~= Seq::<Seq<char>>::empty());
        return plan;
    }
    let ghost keep: Option<Seq<char>> = match running {
        Some(n) => Some(n@),
        None => None,
    };
    let mut i: usize = 0;
    while i < entries.len()
        invariant
            i <= entries@.len(),
            texts(plan.remove_files@) == files_except(entries@.take(i as int), keep),
            texts(plan.remove_dirs@) == subdirectories(entries@.take(i as int)),
            keep == match running {
                Some(n) => Some(n@),
                None => None,
            },
        decreases entries@.len() - i,
    {
        let e = &entries[i];
        assert(entries@.take(i as int + 1).drop_last() =~= entries@.take(i as int));
        if e.is_dir {
            let ghost prev = plan.remove_dirs@;
            plan.remove_dirs.push(e.name.clone());
            assert(texts(plan.remove_dirs@) =~= texts(prev).push(e.name@));
        } else {
            let keep_it = match running {
                Some(n) => same_text(e.name.as_str(), n),
                None => false,
            };
            if !keep_it {
                let ghost prev = plan.remove_files@;
                plan.remove_files.push(e.name.clone());
                assert(texts(plan.remove_files@) =~= texts(prev).push(e.name@));
            }
        }
        i = i + 1;
    }
    assert(entries@.take(entries@.len() as int) =~= entries@);
    plan.fetch_assets = true;
    plan
}

/// The listing that remains once a plan has been carried out.
pub open spec fn after_repair(entries: Seq<DirEntry>, plan: RepairView) -> Seq<DirEntry> {
    survivors(entries, plan.remove_files, plan.remove_dirs)
}

/// Nothing is removed when no names are given.
pub proof fn lemma_survivors_nothing_removed(entries: Seq<DirEntry>)
    ensures
        survivors(entries, Seq::empty(), Seq::empty()) == entries,
    decreases entries.len(),
{
    if entries.len() > 0 {
        lemma_survivors_nothing_removed(entries.drop_last());
        assert(entries.drop_last().push(entries.last()) =~= entries);
    } else {
        assert(entries =~= Seq::<DirEntry>::empty());
    }
}

/// Reconciliation gates on completeness: on a complete directory it deletes
/// nothing and fetches nothing, the directory stays as it was, and running it
/// a second time is again a no-op.
pub proof fn lemma_repair_idempotent(entries: Seq<DirEntry>, keep: Option<Seq<char>>)
    requires
        complete_listing(entries),
    ensures
        repair_of(entries, keep) == no_repair(),
        after_repair(entries, repair_of(entries, keep)) == entries,
        repair_of(after_repair(entries, repair_of(entries, keep)), keep) == no_repair(),
{
    lemma_survivors_nothing_removed(entries);
}

proof fn lemma_files_except_members(entries: Seq<DirEntry>, keep: Option<Seq<char>>, i: int)
    requires
        0 <= i < entries.len(),
        !entries[i].is_dir,
        keep != Some(entries[i].name@),
    ensures
        files_except(entries, keep).contains(entries[i].name@),
    decreases entries.len(),
{
    let p = entries.drop_last();
    if i < entries.len() - 1 {
        assert(p[i] == entries[i]);
        lemma_files_except_members(p, keep, i);
        let rest = files_except(p, keep);
        let j = choose|j: int| 0 <= j < rest.len() && rest[j] == entries[i].name@;
        if !entries.last().is_dir && keep != Some(entries.last().name@) {
            assert(rest.push(entries.last().name@)[j] == entries[i].name@);
        }
    } else {
        let rest = files_except(p, keep);
        assert(rest.push(entries[i].name@)[rest.len() as int] == entries[i].name@);
    }
}

proof fn lemma_subdirectories_members(entries: Seq<DirEntry>, i: int)
    requires
        0 <= i < entries.len(),
        entries[i].is_dir,
    ensures
        subdirectories(entries).contains(entries[i].name@),
    decreases entries.len(),
{
    let p = entries.drop_last();
    if i < entries.len() - 1 {
        assert(p[i] == entries[i]);
        lemma_subdirectories_members(p, i);
        let rest = subdirectories(p);
        let j = choose|j: int| 0 <= j < rest.len() && rest[j] == entries[i].name@;
        if entries.last().is_dir {
            assert(rest.push(entries.last().name@)[j] == entries[i].name@);
        }
    } else {
        let rest = subdirectories(p);
        assert(rest.push(entries[i].name@)[rest.len() as int] == entries[i].name@);
    }
}

proof fn lemma_survivors_kept(
    entries: Seq<DirEntry>,
    files: Seq<Seq<char>>,
    dirs: Seq<Seq<char>>,
    keep: Option<Seq<char>>,
)
    requires
        forall|i: int| 0 <= i < entries.len() && entries[i].is_dir ==> dirs.contains(#[trigger] entries[i].name@),
        forall|i: int|
            0 <= i < entries.len() && !entries[i].is_dir && keep != Some(entries[i].name@)
                ==> files.contains(#[trigger] entries[i].name@),
    ensures
        forall|i: int|
            0 <= i < survivors(entries, files, dirs).len() ==> !(#[trigger] survivors(entries, files, dirs)[i]).is_dir
                && keep == Some(survivors(entries, files, dirs)[i].name@),
    decreases entries.len(),
{
    if entries.len() > 0 {
        let p = entries.drop_last();
        assert forall|i: int| 0 <= i < p.len() && p[i].is_dir implies dirs.contains(#[trigger] p[i].name@) by {
            assert(p[i] == entries[i]);
        }
        assert forall|i: int| 0 <= i < p.len() && !p[i].is_dir && keep != Some(p[i].name@) implies files.contains(
            #[trigger] p[i].name@,
        ) by {
            assert(p[i] == entries[i]);
        }
        lemma_survivors_kept(p, files, dirs, keep);
        let n = entries.len() - 1;
        let e = entries[n];
        assert(e == entries.last());
        if e.is_dir {
            assert(dirs.contains(entries[n].name@));
        } else if keep != Some(e.name@) {
            assert(files.contains(entries[n].name@));
        }
        let rest = survivors(p, files, dirs);
        let all = survivors(entries, files, dirs);
        assert forall|i: int| 0 <= i < all.len() implies !(#[trigger] all[i]).is_dir && keep == Some(all[i].name@) by {
            if i < rest.len() {
                assert(all[i] == rest[i]);
            } else {
                assert(all[i] == e);
            }
        }
    }
}

/// Reconciliation of an incomplete directory reproduces the fresh state:
/// once its deletions are done, nothing is left but the running executable.
pub proof fn lemma_repair_leaves_running_only(entries: Seq<DirEntry>, keep: Option<Seq<char>>)
    requires
        !complete_listing(entries),
    ensures
        repair_of(entries, keep).fetch_assets,
        forall|i: int|
            0 <= i < after_repair(entries, repair_of(entries, keep)).len() ==> !(#[trigger] after_repair(
                entries,
                repair_of(entries, keep),
            )[i]).is_dir && keep == Some(after_repair(entries, repair_of(entries, keep))[i].name@),
{
    let files = files_except(entries, keep);
    let dirs = subdirectories(entries);
    assert forall|i: int| 0 <= i < entries.len() && entries[i].is_dir implies dirs.contains(#[trigger] entries[i].name@) by {
        lemma_subdirectories_members(entries, i);
    }
    assert forall|i: int| 0 <= i < entries.len() && !entries[i].is_dir && keep != Some(entries[i].name@) implies files.contains(
        #[trigger] entries[i].name@,
    ) by {
        lemma_files_except_members(entries, keep, i);
    }
    lemma_survivors_kept(entries, files, dirs, keep);
}

// ---------------------------------------------------------------- pruning

/// Names of the version directories of a listing other than `keep`, in order.
pub open spec fn stale_versions(entries: Seq<DirEntry>, keep: Seq<char>) -> Seq<Seq<char>>
    decreases entries.len(),
{
    if entries.len() == 0 {
        Seq::empty()
    } else {
        let rest = stale_versions(entries.drop_last(), keep);
        let e = entries.last();
        if e.is_dir && e.name@ != keep {
            rest.push(e.name@)
        } else {
            rest
        }
    }
}

/// Names of the directories in a listing.
pub open spec fn directory_names(entries: Seq<DirEntry>) -> Set<Seq<char>> {
    Set::new(|n: Seq<char>| exists|i: int| 0 <= i < entries.len() && entries[i].is_dir && #[trigger] entries[i].name@ == n)
}

/// The version directories to remove once `keep` is complete: every
/// directory of the listing of the versions directory but `keep`.
pub fn plan_prune(entries: &Vec<DirEntry>, keep: &str) -> (r: Vec<String>)
    ensures
        texts(r@) == stale_versions(entries@, keep@),
{
    let mut r: Vec<String> = Vec::new();
    let mut i: usize = 0;
    while i < entries.len()
        invariant
            i <= entries@.len(),
            texts(r@) == stale_versions(entries@.take(i as int), keep@),
        decreases entries@.len() - i,
    {
        let e = &entries[i];
        assert(entries@.take(i as int + 1).drop_last() =~= entries@.take(i as int));
        if e.is_dir && !same_text(e.name.as_str(), keep) {
            let ghost prev = r@;
            r.push(e.name.clone());
            assert(texts(r@) =~= texts(prev).push(e.name@));
        }
        i = i + 1;
    }
    assert(entries@.take(entries@.len() as int) =~= entries@);
    r
}

/// A name is stale exactly when it names a directory of the listing other than `keep`.
pub proof fn lemma_stale_versions_members(entries: Seq<DirEntry>, keep: Seq<char>, n: Seq<char>)
    ensures
        stale_versions(entries, keep).contains(n) <==> (directory_names(entries).contains(n) && n
            != keep),
    decreases entries.len(),
{
    if entries.len() > 0 {
        let p = entries.drop_last();
        lemma_stale_versions_members(p, keep, n);
        let e = entries.last();
        if directory_names(entries).contains(n) && n != keep {
            let i = choose|i: int| 0 <= i < entries.len() && entries[i].is_dir && #[trigger] entries[i].name@ == n;
            if i < p.len() {
                assert(p[i] == entries[i]);
                assert(directory_names(p).contains(n));
            }
        }
        if directory_names(p).contains(n) {
            let i = choose|i: int| 0 <= i < p.len() && p[i].is_dir && #[trigger] p[i].name@ == n;
            assert(entries[i] == p[i]);
        }
        if e.is_dir && e.name@ != keep {
            assert(entries[entries.len() - 1] == e);
            let rest = stale_versions(p, keep);
            if rest.push(e.name@).contains(n) && n != e.name@ {
                let j = choose|j: int| 0 <= j < rest.push(e.name@).len() && rest.push(e.name@)[j] == n;
                assert(rest[j] == n);
            }
            if rest.contains(n) {
                let j = choose|j: int| 0 <= j < rest.len() && rest[j] == n;
                assert(rest.push(e.name@)[j] == n);
            }
            assert(rest.push(e.name@)[rest.len() as int] == e.name@);
        } else if e.is_dir {
            assert(entries[entries.len() - 1] == e);
        }
    }
}

/// Once the kept version directory exists, removing every stale version
/// directory leaves exactly one: the kept one, whatever number of stale
/// siblings there were before.
pub proof fn lemma_prune_leaves_one(entries: Seq<DirEntry>, keep: Seq<char>)
    requires
        directory_names(entries).contains(keep),
    ensures
        directory_names(entries).difference(stale_versions(entries, keep).to_set()) == set![keep],
{
    assert forall|n: Seq<char>|
        directory_names(entries).difference(stale_versions(entries, keep).to_set()).contains(n)
            <==> set![keep].contains(n) by {
        lemma_stale_versions_members(entries, keep, n);
    }
    assert(directory_names(entries).difference(stale_versions(entries, keep).to_set()) =~= set![
        keep,
    ]);
}

} // verus!
