use vstd::prelude::*;
use vstd::string::*;
use crate::text::{texts, copy_texts, same_text};

verus! {

/// One asset of a version: the archive to fetch and where, below the version
/// directory, it is unpacked.
#[derive(Debug)]
pub struct AssetEntry {
    pub remote_name: String,
    pub local_subpath: Vec<String>,
}

/// A manifest entry from its name and the components of its subpath.
fn entry(remote_name: &str, subpath: Vec<&str>) -> (r: AssetEntry)
    ensures
        r.remote_name@ == remote_name@,
        texts(r.local_subpath@) == subpath@.map_values(|c: &str| c@),
{
    let mut parts: Vec<String> = Vec::new();
    let mut i: usize = 0;
    while i < subpath.len()
        invariant
            i <= subpath@.len(),
            parts@.len() == i,
            forall|j: int| 0 <= j < i ==> parts@[j]@ == subpath@[j]@,
        decreases subpath@.len() - i,
    {
        parts.push(String::from_str(subpath[i]));
        i = i + 1;
    }
    assert(texts(parts@) =~= subpath@.map_values(|c: &str| c@));
    AssetEntry { remote_name: String::from_str(remote_name), local_subpath: parts }
}

/// The assets of one version: remote name and subpath below the version directory.
pub open spec fn manifest_table() -> Seq<(Seq<char>, Seq<Seq<char>>)> {
    seq![
        ("SyntaxApp.zip"@, seq![]),
        ("shaders.zip"@, seq!["shaders"@]),
        ("ssl.zip"@, seq!["ssl"@]),
        ("content-avatar.zip"@, seq!["content"@, "avatar"@]),
        ("content-configs.zip"@, seq!["content"@, "configs"@]),
        ("content-fonts.zip"@, seq!["content"@, "fonts"@]),
        ("content-sky.zip"@, seq!["content"@, "sky"@]),
        ("content-sounds.zip"@, seq!["content"@, "sounds"@]),
        ("content-textures2.zip"@, seq!["content"@, "textures"@]),
        ("content-models.zip"@, seq!["content"@, "models"@]),
        ("content-terrain.zip"@, seq!["PlatformContent"@, "pc"@, "terrain"@]),
        ("content-textures3.zip"@, seq!["PlatformContent"@, "pc"@, "textures"@]),
        ("Client2018.zip"@, seq!["Client2018"@]),
        ("Client2020.zip"@, seq!["Client2020"@])
    ]
}

/// The assets that make up one version of the client, as `manifest_table` lists them.
pub fn asset_manifest() -> (r: Vec<AssetEntry>)
    ensures
        r@.len() == manifest_table().len(),
        forall|i: int|
            0 <= i < r@.len() ==> (#[trigger] r@[i]).remote_name@ == manifest_table()[i].0
                && texts(r@[i].local_subpath@) == manifest_table()[i].1,
{
    let mut m: Vec<AssetEntry> = Vec::new();
    m.push(entry("SyntaxApp.zip", vec![]));
    m.push(entry("shaders.zip", vec!["shaders"]));
    m.push(entry("ssl.zip", vec!["ssl"]));
    m.push(entry("content-avatar.zip", vec!["content", "avatar"]));
    m.push(entry("content-configs.zip", vec!["content", "configs"]));
    m.push(entry("content-fonts.zip", vec!["content", "fonts"]));
    m.push(entry("content-sky.zip", vec!["content", "sky"]));
    m.push(entry("content-sounds.zip", vec!["content", "sounds"]));
    m.push(entry("content-textures2.zip", vec!["content", "textures"]));
    m.push(entry("content-models.zip", vec!["content", "models"]));
    m.push(entry("content-terrain.zip", vec!["PlatformContent", "pc", "terrain"]));
    m.push(entry("content-textures3.zip", vec!["PlatformContent", "pc", "textures"]));
    m.push(entry("Client2018.zip", vec!["Client2018"]));
    m.push(entry("Client2020.zip", vec!["Client2020"]));
    m
}

/// Names are unique in the manifest, and so are subpaths: it is a one-to-one
/// table from remote name to destination.
pub open spec fn manifest_wf(m: Seq<AssetEntry>) -> bool {
    forall|i: int, j: int|
        0 <= i < m.len() && 0 <= j < m.len() && i != j ==> m[i].remote_name@ != m[j].remote_name@
            && texts(m[i].local_subpath@) != texts(m[j].local_subpath@)
}

fn same_path(a: &Vec<String>, b: &Vec<String>) -> (r: bool)
    ensures
        r == (texts(a@) == texts(b@)),
{
    if a.len() != b.len() {
        assert(texts(a@).len() != texts(b@).len());
        return false;
    }
    let mut i: usize = 0;
    while i < a.len()
        invariant
            a@.len() == b@.len(),
            i <= a@.len(),
            forall|j: int| 0 <= j < i ==> a@[j]@ == b@[j]@,
        decreases a@.len() - i,
    {
        if !same_text(a[i].as_str(), b[i].as_str()) {
            assert(texts(a@)[i as int] != texts(b@)[i as int]);
            return false;
        }
        i = i + 1;
    }
    assert(texts(a@) =~= texts(b@));
    true
}

/// Whether a manifest is a one-to-one table.
pub fn check_manifest(m: &Vec<AssetEntry>) -> (r: bool)
    ensures
        r == manifest_wf(m@),
{
    let mut i: usize = 0;
    while i < m.len()
        invariant
            i <= m@.len(),
            forall|a: int, b: int|
                0 <= a < i && 0 <= b < m@.len() && a != b ==> m@[a].remote_name@ != m@[b].remote_name@
                    && texts(m@[a].local_subpath@) != texts(m@[b].local_subpath@),
        decreases m@.len() - i,
    {
        let mut j: usize = 0;
        while j < m.len()
            invariant
                i < m@.len(),
                j <= m@.len(),
                forall|a: int, b: int|
                    0 <= a < i && 0 <= b < m@.len() && a != b ==> m@[a].remote_name@
                        != m@[b].remote_name@ && texts(m@[a].local_subpath@) != texts(
                        m@[b].local_subpath@,
                    ),
                forall|b: int|
                    0 <= b < j && b != i ==> m@[i as int].remote_name@ != m@[b].remote_name@
                        && texts(m@[i as int].local_subpath@) != texts(m@[b].local_subpath@),
            decreases m@.len() - j,
        {
            if j != i && (same_text(m[i].remote_name.as_str(), m[j].remote_name.as_str())
                || same_path(&m[i].local_subpath, &m[j].local_subpath)) {
                return false;
            }
            j = j + 1;
        }
        i = i + 1;
    }
    true
}

/// The subpath of the first entry named `name`, or `None` when the manifest has none.
pub fn get_location_from_file_name(m: &Vec<AssetEntry>, name: &str) -> (r: Option<Vec<String>>)
    ensures
        match r {
            Some(p) => exists|i: int|
                0 <= i < m@.len() && m@[i].remote_name@ == name@ && texts(p@) == texts(
                    m@[i].local_subpath@,
                ) && forall|j: int| 0 <= j < i ==> m@[j].remote_name@ != name@,
            None => forall|i: int| 0 <= i < m@.len() ==> m@[i].remote_name@ != name@,
        },
{
    let mut i: usize = 0;
    while i < m.len()
        invariant
            i <= m@.len(),
            forall|j: int| 0 <= j < i ==> m@[j].remote_name@ != name@,
        decreases m@.len() - i,
    {
        if same_text(m[i].remote_name.as_str(), name) {
            return Some(copy_texts(&m[i].local_subpath));
        }
        i = i + 1;
    }
    None
}

// ---------------------------------------------------------------- jobs

/// One fetch-and-extract job: the archive at `url` goes below `dest`.
#[derive(Debug)]
pub struct FetchJob {
    pub remote_name: String,
    pub url: String,
    pub dest: Vec<String>,
}

/// A path followed by a relative path.
fn join_paths(a: &Vec<String>, b: &Vec<String>) -> (r: Vec<String>)
    ensures
        texts(r@) == texts(a@) + texts(b@),
{
    let mut r = copy_texts(a);
    let mut i: usize = 0;
    while i < b.len()
        invariant
            i <= b@.len(),
            texts(r@) == texts(a@) + texts(b@.take(i as int)),
        decreases b@.len() - i,
    {
        let ghost prev = r@;
        r.push(b[i].clone());
        proof {
            assert(texts(r@) =~= texts(prev).push(b@[i as int]@));
            assert(texts(b@.take(i as int + 1)) =~= texts(b@.take(i as int)).push(b@[i as int]@));
            assert(texts(r@) =~= texts(a@) + texts(b@.take(i as int + 1)));
        }
        i = i + 1;
    }
    assert(b@.take(b@.len() as int) =~= b@);
    r
}

/// The job of manifest entry `e`: fetched from `url_prefix` followed by its
/// name, unpacked into `dest_root` followed by its subpath.
pub open spec fn job_for(job: FetchJob, e: AssetEntry, url_prefix: Seq<char>, dest_root: Seq<Seq<char>>) -> bool {
    &&& job.remote_name@ == e.remote_name@
    &&& job.url@ == url_prefix + e.remote_name@
    &&& texts(job.dest@) == dest_root + texts(e.local_subpath@)
}

/// The job of `name`, or `None` when the manifest has no entry of that name.
pub fn extraction_job(m: &Vec<AssetEntry>, name: &str, url_prefix: &str, dest_root: &Vec<String>) -> (r: Option<FetchJob>)
    ensures
        match r {
            Some(job) => exists|i: int|
                0 <= i < m@.len() && m@[i].remote_name@ == name@ && job_for(job, m@[i], url_prefix@, texts(dest_root@))
                    && forall|j: int| 0 <= j < i ==> m@[j].remote_name@ != name@,
            None => forall|i: int| 0 <= i < m@.len() ==> m@[i].remote_name@ != name@,
        },
{
    match get_location_from_file_name(m, name) {
        Some(sub) => {
            let url = String::from_str(url_prefix).concat(name);
            let dest = join_paths(dest_root, &sub);
            Some(FetchJob { remote_name: String::from_str(name), url, dest })
        },
        None => None,
    }
}

/// One job per manifest entry, in manifest order.
pub fn plan_fetch(m: &Vec<AssetEntry>, url_prefix: &str, dest_root: &Vec<String>) -> (r: Vec<FetchJob>)
    ensures
        r@.len() == m@.len(),
        forall|i: int| 0 <= i < m@.len() ==> job_for(#[trigger] r@[i], m@[i], url_prefix@, texts(dest_root@)),
{
    let mut jobs: Vec<FetchJob> = Vec::new();
    let mut i: usize = 0;
    while i < m.len()
        invariant
            i <= m@.len(),
            jobs@.len() == i,
            forall|j: int| 0 <= j < i ==> job_for(#[trigger] jobs@[j], m@[j], url_prefix@, texts(dest_root@)),
        decreases m@.len() - i,
    {
        let e = &m[i];
        let url = String::from_str(url_prefix).concat(e.remote_name.as_str());
        let dest = join_paths(dest_root, &e.local_subpath);
        jobs.push(FetchJob { remote_name: e.remote_name.clone(), url, dest });
        i = i + 1;
    }
    jobs
}

// ---------------------------------------------------------------- outcomes

/// Why a fetch-and-extract job failed.
#[derive(Debug)]
pub enum JobError {
    /// The archive could not be fetched.
    Network(String),
    /// The archive could not be unpacked.
    CorruptArchive(String),
    /// A directory or file could not be written.
    Filesystem(String),
    /// The asset has no manifest entry.
    ManifestMismatch(String),
}

/// The errors among job outcomes, in job order.
pub open spec fn errors_of(outcomes: Seq<Result<(), JobError>>) -> Seq<JobError>
    decreases outcomes.len(),
{
    if outcomes.len() == 0 {
        Seq::empty()
    } else {
        let rest = errors_of(outcomes.skip(1));
        match outcomes[0] {
            Ok(_) => rest,
            Err(e) => seq![e] + rest,
        }
    }
}

pub proof fn lemma_no_errors(outcomes: Seq<Result<(), JobError>>)
    ensures
        errors_of(outcomes).len() == 0 <==> forall|i: int| 0 <= i < outcomes.len() ==> outcomes[i] is Ok,
    decreases outcomes.len(),
{
    if outcomes.len() > 0 {
        lemma_no_errors(outcomes.skip(1));
        if forall|i: int| 0 <= i < outcomes.len() ==> outcomes[i] is Ok {
            assert forall|i: int| 0 <= i < outcomes.skip(1).len() implies outcomes.skip(1)[i] is Ok by {
                assert(outcomes.skip(1)[i] == outcomes[i + 1]);
            }
        }
        if errors_of(outcomes).len() == 0 {
            assert forall|i: int| 0 <= i < outcomes.len() implies outcomes[i] is Ok by {
                if i > 0 {
                    assert(outcomes.skip(1)[i - 1] == outcomes[i]);
                }
            }
        }
    }
}

/// Joins the outcomes of all jobs of a run: the run succeeds only when every
/// job did, and otherwise fails with every job's error, in job order.
pub fn join_outcomes(outcomes: Vec<Result<(), JobError>>) -> (r: Result<(), Vec<JobError>>)
    ensures
        r is Ok <==> forall|i: int| 0 <= i < outcomes@.len() ==> outcomes@[i] is Ok,
        r matches Err(es) ==> es@ == errors_of(outcomes@),
{
    let ghost all = outcomes@;
    let mut rest = outcomes;
    let mut errors: Vec<JobError> = Vec::new();
    while rest.len() > 0
        invariant
            errors@ + errors_of(rest@) == errors_of(all),
        decreases rest@.len(),
    {
        let ghost before = rest@;
        let o = rest.remove(0);
        assert(rest@ =~= before.skip(1));
        match o {
            Ok(()) => {},
            Err(e) => {
                errors.push(e);
                assert(errors@ + errors_of(rest@) =~= errors_of(all));
            },
        }
    }
    proof {
        assert(errors_of(rest@) == Seq::<JobError>::empty());
        assert(errors@ =~= errors_of(all));
        lemma_no_errors(all);
    }
    if errors.len() == 0 {
        Ok(())
    } else {
        Err(errors)
    }
}

// ---------------------------------------------------------------- progress

/// Bytes of one download received so far, with the progress to show.
#[derive(Debug)]
pub struct Download {
    pub bytes: Vec<u8>,
    /// The announced content length, if the server sent one.
    pub total: Option<u64>,
    /// Progress position: bytes so far, capped at `total`.
    pub position: u64,
}

/// The progress position after `len` more bytes.
pub open spec fn next_position(position: u64, len: nat, total: Option<u64>) -> u64 {
    let cap: int = match total {
        Some(t) => t as int,
        None => u64::MAX as int,
    };
    if position + len >= cap {
        cap as u64
    } else {
        (position + len) as u64
    }
}

impl Download {
    /// A download that has received nothing yet.
    pub fn start(total: Option<u64>) -> (r: Download)
        ensures
            r.bytes@ == Seq::<u8>::empty(),
            r.total == total,
            r.position == 0,
    {
        Download { bytes: Vec::new(), total, position: 0 }
    }

    /// Appends a chunk of the body and advances the progress position.
    pub fn push_chunk(&mut self, chunk: &[u8])
        ensures
            final(self).bytes@ == old(self).bytes@ + chunk@,
            final(self).total == old(self).total,
            final(self).position == next_position(old(self).position, chunk@.len(), old(self).total),
    {
        let ghost start = self.bytes@;
        let ghost total0 = self.total;
        let ghost position0 = self.position;
        let mut i: usize = 0;
        while i < chunk.len()
            invariant
                i <= chunk@.len(),
                self.bytes@ == start + chunk@.take(i as int),
                self.total == total0,
                self.position == position0,
            decreases chunk@.len() - i,
        {
            self.bytes.push(chunk[i]);
            assert(start + chunk@.take(i as int + 1) =~= (start + chunk@.take(i as int)).push(chunk@[i as int]));
            i = i + 1;
        }
        assert(chunk@.take(chunk@.len() as int) =~= chunk@);
        let cap: u64 = match self.total {
            Some(t) => t,
            None => u64::MAX,
        };
        let len = chunk.len() as u64;
        self.position = if self.position >= cap || len >= cap - self.position {
            cap
        } else {
            self.position + len
        };
    }
}

// ---------------------------------------------------------------- disk model

/// Files on disk: full path to content.
pub type Disk = Map<Seq<Seq<char>>, Seq<u8>>;

/// Whether `path` is `dir` or lies below it.
pub open spec fn within(path: Seq<Seq<char>>, dir: Seq<Seq<char>>) -> bool {
    dir.len() <= path.len() && path.take(dir.len() as int) == dir
}

/// Neither directory lies within the other.
pub open spec fn disjoint_dirs(a: Seq<Seq<char>>, b: Seq<Seq<char>>) -> bool {
    !within(a, b) && !within(b, a)
}

/// Whether unpacking into `dest` writes `path`, given the archive's relative paths.
pub open spec fn writes(dest: Seq<Seq<char>>, archive: Disk, path: Seq<Seq<char>>) -> bool {
    within(path, dest) && archive.contains_key(path.skip(dest.len() as int))
}

/// The disk after unpacking `archive` into `dest`, each entry at its relative path.
pub open spec fn extract_into(disk: Disk, dest: Seq<Seq<char>>, archive: Disk) -> Disk {
    Map::new(
        |p: Seq<Seq<char>>| disk.contains_key(p) || writes(dest, archive, p),
        |p: Seq<Seq<char>>|
            if writes(dest, archive, p) {
                archive[p.skip(dest.len() as int)]
            } else {
                disk[p]
            },
    )
}

/// A path within two directories puts one within the other.
pub proof fn lemma_within_both(p: Seq<Seq<char>>, a: Seq<Seq<char>>, b: Seq<Seq<char>>)
    requires
        within(p, a),
        within(p, b),
    ensures
        within(a, b) || within(b, a),
{
    if a.len() <= b.len() {
        assert(b.take(a.len() as int) =~= p.take(a.len() as int));
    } else {
        assert(a.take(b.len() as int) =~= p.take(b.len() as int));
    }
}

/// Directories disjoint below a common root stay disjoint with it in front.
pub proof fn lemma_disjoint_under_root(root: Seq<Seq<char>>, a: Seq<Seq<char>>, b: Seq<Seq<char>>)
    requires
        disjoint_dirs(a, b),
    ensures
        disjoint_dirs(root + a, root + b),
{
    if within(root + a, root + b) {
        assert(a.take(b.len() as int) =~= (root + a).take((root.len() + b.len()) as int).skip(root.len() as int));
        assert((root + b).skip(root.len() as int) =~= b);
    }
    if within(root + b, root + a) {
        assert(b.take(a.len() as int) =~= (root + b).take((root.len() + a.len()) as int).skip(root.len() as int));
        assert((root + a).skip(root.len() as int) =~= a);
    }
}

/// Jobs of two manifest entries with disjoint subpaths, unpacking below one
/// version directory: each writes only within its own destination, and the
/// disk they leave is the same whichever of them completes first.
pub proof fn lemma_jobs_commute(
    disk: Disk,
    root: Seq<Seq<char>>,
    sub_a: Seq<Seq<char>>,
    archive_a: Disk,
    sub_b: Seq<Seq<char>>,
    archive_b: Disk,
)
    requires
        disjoint_dirs(sub_a, sub_b),
    ensures
        forall|p: Seq<Seq<char>>|
            !within(p, root + sub_a) ==> (#[trigger] extract_into(disk, root + sub_a, archive_a).contains_key(p)
                == disk.contains_key(p) && (disk.contains_key(p) ==> extract_into(disk, root + sub_a, archive_a)[p] == disk[p])),
        forall|p: Seq<Seq<char>>|
            !within(p, root + sub_b) ==> (#[trigger] extract_into(disk, root + sub_b, archive_b).contains_key(p)
                == disk.contains_key(p) && (disk.contains_key(p) ==> extract_into(disk, root + sub_b, archive_b)[p] == disk[p])),
        extract_into(extract_into(disk, root + sub_a, archive_a), root + sub_b, archive_b)
            == extract_into(extract_into(disk, root + sub_b, archive_b), root + sub_a, archive_a),
{
    let da = root + sub_a;
    let db = root + sub_b;
    lemma_disjoint_under_root(root, sub_a, sub_b);
    let ab = extract_into(extract_into(disk, da, archive_a), db, archive_b);
    let ba = extract_into(extract_into(disk, db, archive_b), da, archive_a);
    assert forall|p: Seq<Seq<char>>| !(writes(da, archive_a, p) && writes(db, archive_b, p)) by {
        if within(p, da) && within(p, db) {
            lemma_within_both(p, da, db);
        }
    }
    assert(ab =~= ba);
}

} // verus!
