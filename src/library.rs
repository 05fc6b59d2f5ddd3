use vstd::prelude::*;

use crate::arguments::Arguments;
use crate::platform::{OsName, Platform};
use crate::rule::{all_rules_allowed, rules_allowed, Rule};
use crate::text::{join_path, spec_join_path};

verus! {

/// A downloadable artifact. The checksum and size are carried but not checked.
#[derive(Debug, Clone)]
pub struct Download {
    /// Where the artifact goes, relative to the directory it is stored under.
    pub sub_path: Option<String>,
    pub sha1: String,
    pub size: i32,
    pub url: String,
}

/// The downloads of a client descriptor.
#[derive(Debug, Clone)]
pub struct Downloads {
    pub client: Download,
}

/// The downloads of a library: its main artifact and its named variants.
#[derive(Debug, Clone)]
pub struct LibraryDownload {
    pub artifact: Option<Download>,
    pub classifiers: Option<Vec<(String, Download)>>,
}

/// How a library's native archive is unpacked.
#[derive(Debug, Clone)]
pub struct Extract {
    /// Paths of the archive that are not unpacked, with all below them.
    pub exclude: Option<Vec<String>>,
}

/// A library of a client descriptor.
#[derive(Debug, Clone)]
pub struct Library {
    pub downloads: LibraryDownload,
    pub extract: Option<Extract>,
    /// For each operating system, the classifier that holds its native archive.
    pub natives: Option<Vec<(OsName, String)>>,
    pub rules: Option<Vec<Rule>>,
}

/// The runtime version a client asks for.
#[derive(Debug, Clone)]
pub struct JavaVersion {
    pub component: String,
    pub major_version: u16,
}

/// A per-version client descriptor.
#[derive(Debug, Clone)]
pub struct Client {
    pub arguments: Arguments,
    pub asset_index: Download,
    pub assets: String,
    pub downloads: Downloads,
    pub java_version: Option<JavaVersion>,
    pub libraries: Vec<Library>,
    pub main_class: String,
}

/// An asset object, stored under its content hash.
#[derive(Debug, Clone)]
pub struct Object {
    pub hash: String,
    pub size: i32,
}

/// An asset index: logical names and the objects they stand for.
#[derive(Debug, Clone)]
pub struct Index {
    pub objects: Vec<(String, Object)>,
}

/// Where a download is stored below `base`: at its own relative path, or at
/// `base` itself where it has none.
pub open spec fn download_path(d: Download, base: Seq<char>) -> Seq<char> {
    match d.sub_path {
        Some(p) => spec_join_path(base, p@),
        None => base,
    }
}

impl Download {
    /// The file this download is stored in below `base`.
    pub fn local_path(&self, base: &str) -> (r: String)
        ensures
            r@ == download_path(*self, base@),
    {
        match &self.sub_path {
            Some(p) => join_path(base, p.as_str()),
            None => base.to_owned(),
        }
    }
}

pub open spec fn library_allowed(lib: Library, platform: Platform) -> bool {
    lib.rules is None || all_rules_allowed(lib.rules->0@, platform)
}

/// Index of the first natives entry for the host's operating system.
pub open spec fn first_native_entry(natives: Seq<(OsName, String)>, os: OsName) -> Option<int>
    decreases natives.len(),
{
    if natives.len() == 0 {
        None
    } else {
        match first_native_entry(natives.drop_last(), os) {
            Some(i) => Some(i),
            None => if natives.last().0 == os {
                Some(natives.len() - 1)
            } else {
                None
            },
        }
    }
}

/// Index of the first classifier named `key`.
pub open spec fn first_classifier(classifiers: Seq<(String, Download)>, key: Seq<char>) -> Option<
    int,
>
    decreases classifiers.len(),
{
    if classifiers.len() == 0 {
        None
    } else {
        match first_classifier(classifiers.drop_last(), key) {
            Some(i) => Some(i),
            None => if classifiers.last().0@ == key {
                Some(classifiers.len() - 1)
            } else {
                None
            },
        }
    }
}

/// The classifier entry that holds the library's native archive for the host.
pub open spec fn native_classifier(lib: Library, platform: Platform) -> Option<int> {
    match lib.natives {
        None => None,
        Some(natives) => match lib.downloads.classifiers {
            None => None,
            Some(classifiers) => match first_native_entry(natives@, platform.os) {
                None => None,
                Some(e) => first_classifier(classifiers@, natives@[e].1@),
            },
        },
    }
}

proof fn lemma_first_native_entry(natives: Seq<(OsName, String)>, os: OsName, i: int)
    requires
        0 <= i < natives.len(),
        natives[i].0 == os,
        forall|j: int| 0 <= j < i ==> natives[j].0 != os,
    ensures
        first_native_entry(natives, os) == Some(i),
    decreases natives.len(),
{
    if i < natives.len() - 1 {
        lemma_first_native_entry(natives.drop_last(), os, i);
    } else {
        lemma_no_native_entry(natives.drop_last(), os);
    }
}

proof fn lemma_no_native_entry(natives: Seq<(OsName, String)>, os: OsName)
    requires
        forall|j: int| 0 <= j < natives.len() ==> natives[j].0 != os,
    ensures
        first_native_entry(natives, os) is None,
    decreases natives.len(),
{
    if natives.len() > 0 {
        lemma_no_native_entry(natives.drop_last(), os);
    }
}

proof fn lemma_first_classifier(classifiers: Seq<(String, Download)>, key: Seq<char>, i: int)
    requires
        0 <= i < classifiers.len(),
        classifiers[i].0@ == key,
        forall|j: int| 0 <= j < i ==> classifiers[j].0@ != key,
    ensures
        first_classifier(classifiers, key) == Some(i),
    decreases classifiers.len(),
{
    if i < classifiers.len() - 1 {
        lemma_first_classifier(classifiers.drop_last(), key, i);
    } else {
        lemma_no_classifier(classifiers.drop_last(), key);
    }
}

proof fn lemma_no_classifier(classifiers: Seq<(String, Download)>, key: Seq<char>)
    requires
        forall|j: int| 0 <= j < classifiers.len() ==> classifiers[j].0@ != key,
    ensures
        first_classifier(classifiers, key) is None,
    decreases classifiers.len(),
{
    if classifiers.len() > 0 {
        lemma_no_classifier(classifiers.drop_last(), key);
    }
}

fn find_native_entry(natives: &Vec<(OsName, String)>, os: OsName) -> (r: Option<usize>)
    ensures
        r matches Some(i) ==> i < natives@.len() && first_native_entry(natives@, os) == Some(
            i as int,
        ),
        r is None ==> first_native_entry(natives@, os) is None,
{
    let mut i: usize = 0;
    while i < natives.len()
        invariant
            i <= natives@.len(),
            forall|j: int| 0 <= j < i ==> natives@[j].0 != os,
        decreases natives.len() - i,
    {
        if natives[i].0 == os {
            proof {
                lemma_first_native_entry(natives@, os, i as int);
            }
            return Some(i);
        }
        i = i + 1;
    }
    proof {
        lemma_no_native_entry(natives@, os);
    }
    None
}

fn find_classifier(classifiers: &Vec<(String, Download)>, key: &String) -> (r: Option<usize>)
    ensures
        r matches Some(i) ==> i < classifiers@.len() && first_classifier(classifiers@, key@)
            == Some(i as int),
        r is None ==> first_classifier(classifiers@, key@) is None,
{
    let mut i: usize = 0;
    while i < classifiers.len()
        invariant
            i <= classifiers@.len(),
            forall|j: int| 0 <= j < i ==> classifiers@[j].0@ != key@,
        decreases classifiers.len() - i,
    {
        if classifiers[i].0 == *key {
            proof {
                lemma_first_classifier(classifiers@, key@, i as int);
            }
            return Some(i);
        }
        i = i + 1;
    }
    proof {
        lemma_no_classifier(classifiers@, key@);
    }
    None
}

impl Library {
    /// A library with no rules is always allowed; with rules, it is allowed
    /// when every one of them is.
    pub fn is_allowed(&self, platform: &Platform) -> (r: bool)
        ensures
            r == library_allowed(*self, *platform),
    {
        match &self.rules {
            None => true,
            Some(rules) => rules_allowed(rules, platform),
        }
    }

    /// The native archive the library needs on the host: the classifier that
    /// the first natives entry for the host's operating system names.
    pub fn platform_native(&self, platform: &Platform) -> (r: Option<&Download>)
        ensures
            r is Some <== native_classifier(*self, *platform) is Some,
            r is Some ==> native_classifier(*self, *platform) is Some,
            r matches Some(d) ==> *d == self.downloads.classifiers->0@[native_classifier(
                *self,
                *platform,
            )->0].1,
    {
        let natives = match &self.natives {
            None => return None,
            Some(n) => n,
        };
        let classifiers = match &self.downloads.classifiers {
            None => return None,
            Some(c) => c,
        };
        let entry = match find_native_entry(natives, platform.os) {
            None => return None,
            Some(e) => e,
        };
        match find_classifier(classifiers, &natives[entry].1) {
            None => None,
            Some(k) => Some(&classifiers[k].1),
        }
    }
}

/// The libraries of a list that are allowed on the host, in declared order.
pub open spec fn allowed_libraries(libs: Seq<Library>, platform: Platform) -> Seq<Library>
    decreases libs.len(),
{
    if libs.len() == 0 {
        seq![]
    } else {
        let rest = allowed_libraries(libs.drop_last(), platform);
        if library_allowed(libs.last(), platform) {
            rest.push(libs.last())
        } else {
            rest
        }
    }
}

impl Client {
    /// The libraries required on the host, in declared order.
    pub fn libs(&self, platform: &Platform) -> (r: Vec<&Library>)
        ensures
            r@.map_values(|l: &Library| *l) == allowed_libraries(self.libraries@, *platform),
    {
        let mut out: Vec<&Library> = Vec::new();
        let mut i: usize = 0;
        while i < self.libraries.len()
            invariant
                i <= self.libraries@.len(),
                out@.map_values(|l: &Library| *l) == allowed_libraries(
                    self.libraries@.take(i as int),
                    *platform,
                ),
            decreases self.libraries.len() - i,
        {
            let lib = &self.libraries[i];
            proof {
                assert(self.libraries@.take(i as int + 1).drop_last() == self.libraries@.take(
                    i as int,
                ));
            }
            if lib.is_allowed(platform) {
                out.push(lib);
                proof {
                    assert(out@.map_values(|l: &Library| *l) =~= allowed_libraries(
                        self.libraries@.take(i as int),
                        *platform,
                    ).push(*lib));
                }
            }
            i = i + 1;
        }
        proof {
            assert(self.libraries@.take(self.libraries@.len() as int) == self.libraries@);
        }
        out
    }
}

/// A library with no rules, or with an empty rule list, is allowed everywhere;
/// one with rules is allowed exactly when each of its rules is.
pub proof fn lemma_library_rules_and(lib: Library, platform: Platform)
    ensures
        lib.rules is None ==> library_allowed(lib, platform),
        lib.rules matches Some(rs) && rs@.len() == 0 ==> library_allowed(lib, platform),
        lib.rules matches Some(rs) ==> (library_allowed(lib, platform) <==> forall|i: int|
            0 <= i < rs@.len() ==> #[trigger] crate::rule::rule_allowed(rs@[i], platform)),
{
}

} // verus!
