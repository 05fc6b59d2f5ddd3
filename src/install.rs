use vstd::prelude::*;

use crate::library::{
    allowed_libraries, download_path, native_classifier, Client, Download, Index, Library,
};
use crate::platform::Platform;
use crate::text::{concat, copy_string, join_path, spec_join_path};

verus! {

/// A file to have on disk, and the url to fetch it from where it is missing.
#[derive(Debug, Clone)]
pub struct FetchJob {
    pub path: String,
    pub url: String,
}

/// The downloads of one library: its main artifact, its native archive for
/// the host, and, where the native archive is unpacked, the paths left out.
#[derive(Debug, Clone)]
pub struct LibraryJob {
    pub artifact: Option<FetchJob>,
    pub native: Option<FetchJob>,
    pub exclude: Option<Vec<String>>,
}

pub open spec fn job_is(job: FetchJob, path: Seq<char>, url: Seq<char>) -> bool {
    job.path@ == path && job.url@ == url
}

impl Download {
    /// Fetching this download into its place below `base`.
    pub fn fetch_job(&self, base: &str) -> (r: FetchJob)
        ensures
            job_is(r, download_path(*self, base@), self.url@),
    {
        FetchJob { path: self.local_path(base), url: copy_string(&self.url) }
    }
}

/// Where asset objects are fetched from.
pub open spec fn asset_host() -> Seq<char> {
    "https://resources.download.minecraft.net/"@
}

/// The file of an asset object: under `objects`, in a directory named after
/// the first two characters of its hash, named after the hash.
pub open spec fn asset_object_path(assets_root: Seq<char>, hash: Seq<char>) -> Seq<char> {
    spec_join_path(spec_join_path(spec_join_path(assets_root, "objects"@), hash.take(2)), hash)
}

pub open spec fn asset_object_url(hash: Seq<char>) -> Seq<char> {
    asset_host() + hash.take(2) + "/"@ + hash
}

/// Fetching the asset object with `hash`; None where the hash is shorter than
/// two characters.
pub fn asset_object_job(assets_root: &str, hash: &str) -> (r: Option<FetchJob>)
    ensures
        r is Some == (hash@.len() >= 2),
        r matches Some(j) ==> job_is(j, asset_object_path(assets_root@, hash@), asset_object_url(hash@)),
{
    let cs = hash.unicode_len();
    if cs < 2 {
        return None;
    }
    let prefix = hash.substring_char(0, 2);
    let objects = join_path(assets_root, "objects");
    let dir = join_path(objects.as_str(), prefix);
    let path = join_path(dir.as_str(), hash);
    let url = concat(concat(concat("https://resources.download.minecraft.net/", prefix).as_str(), "/").as_str(), hash);
    proof {
        assert(prefix@ == hash@.take(2));
    }
    Some(FetchJob { path, url })
}

/// The file the asset index of a client is kept in.
pub open spec fn asset_index_dir(assets_root: Seq<char>, assets: Seq<char>) -> Seq<char> {
    spec_join_path(spec_join_path(assets_root, "indexes"@), assets + ".json"@)
}

/// Fetching a client's asset index, kept under `indexes` by its assets id.
pub fn asset_index_job(client: &Client, assets_root: &str) -> (r: FetchJob)
    ensures
        job_is(
            r,
            download_path(client.asset_index, asset_index_dir(assets_root@, client.assets@)),
            client.asset_index.url@,
        ),
{
    let indexes = join_path(assets_root, "indexes");
    let file = concat(client.assets.as_str(), ".json");
    let base = join_path(indexes.as_str(), file.as_str());
    client.asset_index.fetch_job(base.as_str())
}

/// Fetching every object of an asset index, in the index's order; None where
/// an object's hash is shorter than two characters.
pub fn asset_object_jobs(index: &Index, assets_root: &str) -> (r: Option<Vec<FetchJob>>)
    ensures
        r is Some == forall|i: int|
            0 <= i < index.objects@.len() ==> (#[trigger] index.objects@[i]).1.hash@.len() >= 2,
        r matches Some(jobs) ==> jobs@.len() == index.objects@.len() && forall|i: int|
            0 <= i < jobs@.len() ==> job_is(
                #[trigger] jobs@[i],
                asset_object_path(assets_root@, index.objects@[i].1.hash@),
                asset_object_url(index.objects@[i].1.hash@),
            ),
{
    let mut jobs: Vec<FetchJob> = Vec::new();
    let mut i: usize = 0;
    while i < index.objects.len()
        invariant
            i <= index.objects@.len(),
            jobs@.len() == i,
            forall|j: int| 0 <= j < i ==> (#[trigger] index.objects@[j]).1.hash@.len() >= 2,
            forall|j: int|
                0 <= j < i ==> job_is(
                    #[trigger] jobs@[j],
                    asset_object_path(assets_root@, index.objects@[j].1.hash@),
                    asset_object_url(index.objects@[j].1.hash@),
                ),
        decreases index.objects.len() - i,
    {
        match asset_object_job(assets_root, index.objects[i].1.hash.as_str()) {
            Some(job) => jobs.push(job),
            None => return None,
        }
        i = i + 1;
    }
    Some(jobs)
}

/// What a library needs fetched and unpacked on the host.
pub open spec fn library_job_matches(job: LibraryJob, lib: Library, libs_root: Seq<char>, platform: Platform) -> bool {
    &&& (job.artifact is Some == lib.downloads.artifact is Some)
    &&& (job.artifact matches Some(a) ==> job_is(
        a,
        download_path(lib.downloads.artifact->0, libs_root),
        lib.downloads.artifact->0.url@,
    ))
    &&& (job.native is Some == native_classifier(lib, platform) is Some)
    &&& (job.native matches Some(n) ==> {
        let d = lib.downloads.classifiers->0@[native_classifier(lib, platform)->0].1;
        job_is(n, download_path(d, libs_root), d.url@)
    })
    &&& (job.exclude is Some == (job.native is Some && lib.extract is Some))
    &&& (job.exclude matches Some(ex) ==> (match lib.extract->0.exclude {
        Some(e) => ex@ == e@,
        None => ex@.len() == 0,
    }))
}

fn copy_strings(v: &Vec<String>) -> (r: Vec<String>)
    ensures
        r@ == v@,
{
    let mut out: Vec<String> = Vec::new();
    let mut i: usize = 0;
    while i < v.len()
        invariant
            i <= v@.len(),
            out@ == v@.take(i as int),
        decreases v.len() - i,
    {
        out.push(v[i].clone());
        proof {
            assert(out@ == v@.take(i as int + 1));
        }
        i = i + 1;
    }
    proof {
        assert(v@.take(v@.len() as int) == v@);
    }
    out
}

/// The downloads of one library on the host.
pub fn library_job(lib: &Library, libs_root: &str, platform: &Platform) -> (r: LibraryJob)
    ensures
        library_job_matches(r, *lib, libs_root@, *platform),
{
    let artifact = match &lib.downloads.artifact {
        Some(a) => Some(a.fetch_job(libs_root)),
        None => None,
    };
    let native = match lib.platform_native(platform) {
        Some(d) => Some(d.fetch_job(libs_root)),
        None => None,
    };
    let exclude = if native.is_some() {
        match &lib.extract {
            Some(extract) => match &extract.exclude {
                Some(e) => Some(copy_strings(e)),
                None => Some(Vec::new()),
            },
            None => None,
        }
    } else {
        None
    };
    LibraryJob { artifact, native, exclude }
}

/// The downloads of each library required on the host, in declared order.
pub fn library_jobs(client: &Client, libs_root: &str, platform: &Platform) -> (r: Vec<LibraryJob>)
    ensures
        r@.len() == allowed_libraries(client.libraries@, *platform).len(),
        forall|i: int|
            0 <= i < r@.len() ==> library_job_matches(
                #[trigger] r@[i],
                allowed_libraries(client.libraries@, *platform)[i],
                libs_root@,
                *platform,
            ),
{
    let libs = client.libs(platform);
    let ghost allowed = allowed_libraries(client.libraries@, *platform);
    let mut jobs: Vec<LibraryJob> = Vec::new();
    let mut i: usize = 0;
    while i < libs.len()
        invariant
            i <= libs@.len(),
            libs@.map_values(|l: &Library| *l) == allowed,
            jobs@.len() == i,
            forall|j: int|
                0 <= j < i ==> library_job_matches(#[trigger] jobs@[j], allowed[j], libs_root@, *platform),
        decreases libs.len() - i,
    {
        proof {
            assert(allowed[i as int] == *libs@[i as int]);
        }
        jobs.push(library_job(libs[i], libs_root, platform));
        i = i + 1;
    }
    jobs
}

/// Fetching the client jar into the profile's directory.
pub fn client_jar_job(client: &Client, profile_dir: &str) -> (r: FetchJob)
    ensures
        job_is(
            r,
            download_path(client.downloads.client, spec_join_path(profile_dir@, "client.jar"@)),
            client.downloads.client.url@,
        ),
{
    let base = join_path(profile_dir, "client.jar");
    client.downloads.client.fetch_job(base.as_str())
}

/// Where the bytes of a file of an install come from.
#[derive(Debug, Clone, Copy, PartialEq, Eq, Structural)]
pub enum Source {
    /// The file is on disk: it is read, and nothing is fetched.
    Disk,
    /// The file is missing: it is fetched, then stored.
    Network,
}

pub open spec fn spec_source(on_disk: bool) -> Source {
    if on_disk {
        Source::Disk
    } else {
        Source::Network
    }
}

/// Where a file of an install comes from: a file on disk is taken as valid
/// for good and read; only a missing one is fetched.
pub fn source_of(on_disk: bool) -> (r: Source)
    ensures
        r == spec_source(on_disk),
{
    if on_disk {
        Source::Disk
    } else {
        Source::Network
    }
}

/// The positions whose files are missing, in order: the only ones fetched.
pub open spec fn missing_positions(present: Seq<bool>) -> Seq<int>
    decreases present.len(),
{
    if present.len() == 0 {
        seq![]
    } else if present.last() {
        missing_positions(present.drop_last())
    } else {
        missing_positions(present.drop_last()).push(present.len() - 1)
    }
}

/// Which jobs of a batch go to the network: those whose file is not on disk.
/// A file that is there is read instead.
pub fn missing_jobs(present: &Vec<bool>) -> (r: Vec<usize>)
    ensures
        r@.map_values(|i: usize| i as int) == missing_positions(present@),
{
    let mut out: Vec<usize> = Vec::new();
    let mut i: usize = 0;
    while i < present.len()
        invariant
            i <= present@.len(),
            out@.map_values(|k: usize| k as int) == missing_positions(present@.take(i as int)),
        decreases present.len() - i,
    {
        proof {
            assert(present@.take(i as int + 1).drop_last() == present@.take(i as int));
        }
        if !present[i] {
            out.push(i);
            proof {
                assert(out@.map_values(|k: usize| k as int) =~= missing_positions(
                    present@.take(i as int),
                ).push(i as int));
            }
        }
        i = i + 1;
    }
    proof {
        assert(present@.take(present@.len() as int) == present@);
    }
    out
}

/// Once every file of an install is on disk (the descriptor, the asset index
/// and objects, the libraries and their native archives, the client jar),
/// installing again fetches nothing: every file is read from disk.
pub proof fn lemma_installed_fetches_nothing(present: Seq<bool>)
    requires
        forall|i: int| 0 <= i < present.len() ==> #[trigger] present[i],
    ensures
        missing_positions(present) == Seq::<int>::empty(),
        forall|i: int| 0 <= i < present.len() ==> #[trigger] spec_source(present[i]) == Source::Disk,
    decreases present.len(),
{
    if present.len() > 0 {
        lemma_installed_fetches_nothing(present.drop_last());
    }
}

} // verus!
