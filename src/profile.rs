use vstd::prelude::*;

use crate::arguments::{arguments_tokens, legacy_jvm_tokens};
use crate::config::Config;
use crate::java::{first_with_major, JavaManager};
use crate::library::{allowed_libraries, download_path, native_classifier, Client, Library};
use crate::platform::Platform;
use crate::template::{
    lemma_classpath_token, lemma_plain_token, lemma_trailing_placeholder, name_char,
    resolve_placeholder, substitute_all, substituted, PlaceholderValues, Placeholders,
};
use crate::text::{copy_string, join_path, join_strings, join_with, spec_join_path, texts};

verus! {

/// A profile as it is registered: its name, which identifies it, and the
/// game version it installs.
#[derive(Debug, Clone)]
pub struct ProfileMetadata {
    name: String,
    version: String,
}

impl ProfileMetadata {
    pub closed spec fn spec_name(&self) -> Seq<char> {
        self.name@
    }

    pub closed spec fn spec_version(&self) -> Seq<char> {
        self.version@
    }

    pub fn new(name: String, version: String) -> (r: ProfileMetadata)
        ensures
            r.spec_name() == name@,
            r.spec_version() == version@,
    {
        ProfileMetadata { name, version }
    }

    pub fn version(&self) -> (r: &str)
        ensures
            r@ == self.spec_version(),
    {
        self.version.as_str()
    }

    /// A copy with the same name and version.
    pub fn copy(&self) -> (r: ProfileMetadata)
        ensures
            r.spec_name() == self.spec_name(),
            r.spec_version() == self.spec_version(),
    {
        ProfileMetadata { name: copy_string(&self.name), version: copy_string(&self.version) }
    }

    pub fn name(&self) -> (r: &str)
        ensures
            r@ == self.spec_name(),
    {
        self.name.as_str()
    }
}

/// The classpath entries one library adds: its native archive for the host,
/// then its main artifact, each where it is stored below `libs_root`.
pub open spec fn library_classpath(lib: Library, libs_root: Seq<char>, platform: Platform) -> Seq<
    Seq<char>,
> {
    let native = match native_classifier(lib, platform) {
        Some(k) => seq![download_path(lib.downloads.classifiers->0@[k].1, libs_root)],
        None => seq![],
    };
    let artifact = match lib.downloads.artifact {
        Some(a) => seq![download_path(a, libs_root)],
        None => seq![],
    };
    native + artifact
}

pub open spec fn libraries_classpath(
    libs: Seq<Library>,
    libs_root: Seq<char>,
    platform: Platform,
) -> Seq<Seq<char>>
    decreases libs.len(),
{
    if libs.len() == 0 {
        seq![]
    } else {
        libraries_classpath(libs.drop_last(), libs_root, platform) + library_classpath(
            libs.last(),
            libs_root,
            platform,
        )
    }
}

/// The classpath: the entries of each allowed library in declared order, then
/// the client jar, joined by the host's path-list separator.
pub open spec fn spec_classpath(
    client: Client,
    libs_root: Seq<char>,
    client_jar: Seq<char>,
    platform: Platform,
) -> Seq<char> {
    join_with(
        libraries_classpath(allowed_libraries(client.libraries@, platform), libs_root, platform).push(
            client_jar,
        ),
        platform.spec_path_list_separator(),
    )
}

impl Client {
    /// The paths of the libraries required on the host, each below
    /// `libs_root`: for each allowed library in declared order, its native
    /// archive, then its main artifact.
    pub fn get_req_libs(&self, libs_root: &str, platform: &Platform) -> (r: Vec<String>)
        ensures
            texts(r@) == libraries_classpath(
                allowed_libraries(self.libraries@, *platform),
                libs_root@,
                *platform,
            ),
    {
        let libs = self.libs(platform);
        let ghost allowed = allowed_libraries(self.libraries@, *platform);
        let ghost root = libs_root@;
        let mut entries: Vec<String> = Vec::new();
        let mut i: usize = 0;
        while i < libs.len()
            invariant
                i <= libs@.len(),
                libs@.map_values(|l: &Library| *l) == allowed,
                root == libs_root@,
                texts(entries@) == libraries_classpath(allowed.take(i as int), root, *platform),
            decreases libs.len() - i,
        {
            let lib = libs[i];
            let ghost before = texts(entries@);
            proof {
                assert(allowed[i as int] == *lib);
                assert(allowed.take(i as int + 1).drop_last() == allowed.take(i as int));
            }
            if let Some(native) = lib.platform_native(platform) {
                entries.push(native.local_path(libs_root));
            }
            if let Some(artifact) = &lib.downloads.artifact {
                entries.push(artifact.local_path(libs_root));
            }
            proof {
                assert(texts(entries@) =~= before + library_classpath(*lib, root, *platform));
            }
            i = i + 1;
        }
        proof {
            assert(allowed.take(libs@.len() as int) == allowed);
        }
        entries
    }
}

/// A profile with the directories it uses.
#[derive(Debug, Clone)]
pub struct Profile {
    metadata: ProfileMetadata,
    libs_root: String,
    assets_root: String,
    launcher_root: String,
    root: String,
    client_json_path: String,
    client_path: String,
    config_path: String,
}

impl Profile {
    pub closed spec fn spec_metadata(&self) -> ProfileMetadata {
        self.metadata
    }

    pub closed spec fn spec_libs_root(&self) -> Seq<char> {
        self.libs_root@
    }

    pub closed spec fn spec_assets_root(&self) -> Seq<char> {
        self.assets_root@
    }

    pub closed spec fn spec_launcher_root(&self) -> Seq<char> {
        self.launcher_root@
    }

    pub closed spec fn spec_dir(&self) -> Seq<char> {
        self.root@
    }

    pub closed spec fn spec_client_json_path(&self) -> Seq<char> {
        self.client_json_path@
    }

    pub closed spec fn spec_client_jar_path(&self) -> Seq<char> {
        self.client_path@
    }

    pub closed spec fn spec_config_path(&self) -> Seq<char> {
        self.config_path@
    }

    pub open spec fn spec_natives_dir(&self) -> Seq<char> {
        spec_join_path(self.spec_dir(), ".natives"@)
    }

    /// A profile whose directory is named after it under `profiles_root`.
    pub fn new(
        metadata: ProfileMetadata,
        launcher_root: &str,
        profiles_root: &str,
        libs_root: &str,
        assets_root: &str,
    ) -> (r: Profile)
        ensures
            r.spec_metadata() == metadata,
            r.spec_launcher_root() == launcher_root@,
            r.spec_libs_root() == libs_root@,
            r.spec_assets_root() == assets_root@,
            r.spec_dir() == spec_join_path(profiles_root@, metadata.spec_name()),
            r.spec_client_json_path() == spec_join_path(r.spec_dir(), "client.json"@),
            r.spec_config_path() == spec_join_path(r.spec_dir(), "config.json"@),
            r.spec_client_jar_path() == spec_join_path(r.spec_dir(), "client.jar"@),
    {
        let root = join_path(profiles_root, metadata.name());
        let client_json_path = join_path(root.as_str(), "client.json");
        let config_path = join_path(root.as_str(), "config.json");
        let client_path = join_path(root.as_str(), "client.jar");
        Profile {
            metadata,
            libs_root: libs_root.to_owned(),
            assets_root: assets_root.to_owned(),
            launcher_root: launcher_root.to_owned(),
            root,
            client_json_path,
            client_path,
            config_path,
        }
    }

    pub fn name(&self) -> (r: &str)
        ensures
            r@ == self.spec_metadata().spec_name(),
    {
        self.metadata.name()
    }

    pub fn version(&self) -> (r: &str)
        ensures
            r@ == self.spec_metadata().spec_version(),
    {
        self.metadata.version()
    }

    pub fn metadata(&self) -> (r: &ProfileMetadata)
        ensures
            *r == self.spec_metadata(),
    {
        &self.metadata
    }

    pub fn launcher_root(&self) -> (r: &str)
        ensures
            r@ == self.spec_launcher_root(),
    {
        self.launcher_root.as_str()
    }

    pub fn libs_root(&self) -> (r: &str)
        ensures
            r@ == self.spec_libs_root(),
    {
        self.libs_root.as_str()
    }

    pub fn assets_root(&self) -> (r: &str)
        ensures
            r@ == self.spec_assets_root(),
    {
        self.assets_root.as_str()
    }

    pub fn dir_path(&self) -> (r: &str)
        ensures
            r@ == self.spec_dir(),
    {
        self.root.as_str()
    }

    pub fn config_path(&self) -> (r: &str)
        ensures
            r@ == self.spec_config_path(),
    {
        self.config_path.as_str()
    }

    pub fn client_jar_path(&self) -> (r: &str)
        ensures
            r@ == self.spec_client_jar_path(),
    {
        self.client_path.as_str()
    }

    pub fn client_json_path(&self) -> (r: &str)
        ensures
            r@ == self.spec_client_json_path(),
    {
        self.client_json_path.as_str()
    }

    /// The directory that native libraries are unpacked into.
    pub fn natives_dir(&self) -> (r: String)
        ensures
            r@ == self.spec_natives_dir(),
    {
        join_path(self.root.as_str(), ".natives")
    }

    /// The configuration in effect for this profile: its own entries, where it
    /// has a config, over the global ones.
    pub fn get_config(&self, global: Config, own: Option<Config>) -> (r: Config)
        ensures
            r@ == match own {
                Some(c) => global@.union_prefer_right(c@),
                None => global@,
            },
    {
        match own {
            Some(config) => config.merge(global),
            None => global,
        }
    }

    /// The classpath of a client for this profile.
    pub fn classpath(&self, client: &Client, platform: &Platform) -> (r: String)
        ensures
            r@ == spec_classpath(
                *client,
                self.spec_libs_root(),
                self.spec_client_jar_path(),
                *platform,
            ),
    {
        let mut entries = client.get_req_libs(self.libs_root.as_str(), platform);
        let ghost lib_entries = texts(entries@);
        entries.push(copy_string(&self.client_path));
        proof {
            assert(texts(entries@) =~= lib_entries.push(self.client_path@));
        }
        join_strings(&entries, platform.path_list_separator())
    }

    pub open spec fn spec_placeholders(
        &self,
        client: Client,
        config: Config,
        platform: Platform,
    ) -> PlaceholderValues {
        PlaceholderValues {
            game_directory: self.spec_dir(),
            assets_root: self.spec_assets_root(),
            assets_index_name: client.assets@,
            version_name: self.spec_metadata().spec_version(),
            classpath: spec_classpath(
                client,
                self.spec_libs_root(),
                self.spec_client_jar_path(),
                platform,
            ),
            natives_directory: self.spec_natives_dir(),
            config: config@,
        }
    }

    /// The values that placeholders of a client's arguments stand for.
    pub fn placeholders(&self, client: &Client, config: &Config, platform: &Platform) -> (r:
        Placeholders)
        ensures
            r@ == self.spec_placeholders(*client, *config, *platform),
    {
        Placeholders {
            game_directory: copy_string(&self.root),
            assets_root: copy_string(&self.assets_root),
            assets_index_name: copy_string(&client.assets),
            version_name: self.metadata.version().to_owned(),
            classpath: self.classpath(client, platform),
            natives_directory: self.natives_dir(),
            config: config.copy(),
        }
    }

    /// The launch tokens: the runtime tokens and the game tokens with their
    /// placeholders replaced, and the main class between them.
    pub open spec fn spec_arguments(
        &self,
        client: Client,
        config: Config,
        platform: Platform,
    ) -> Seq<Seq<char>> {
        let values = self.spec_placeholders(client, config, platform);
        let (jvm, game) = arguments_tokens(client.arguments, platform);
        jvm.map_values(|t: Seq<char>| substituted(t, values)).push(client.main_class@) + game.map_values(
            |t: Seq<char>| substituted(t, values),
        )
    }

    /// The arguments that launch a client of this profile, after the heap flags.
    pub fn generate_arguments(&self, client: Client, config: &Config, platform: &Platform) -> (r:
        Vec<String>)
        ensures
            texts(r@) == self.spec_arguments(client, *config, *platform),
    {
        let ghost c = client;
        let values = self.placeholders(&client, config, platform);
        let main_class = client.main_class;
        let (jvm, game) = client.arguments.into_raw(platform);
        let mut out = substitute_all(&jvm, &values);
        let mut game = substitute_all(&game, &values);
        let ghost jvm_texts = texts(out@);
        let ghost game_texts = texts(game@);
        out.push(main_class);
        out.append(&mut game);
        proof {
            assert(texts(out@) =~= jvm_texts.push(main_class@) + game_texts);
        }
        out
    }

    /// The configuration a newly installed client needs beyond the profile's:
    /// where the client asks for a Java major version and the host has one,
    /// the path of the newest such runtime.
    pub fn java_override(client: &Client, java: &JavaManager) -> (r: Option<Config>)
        ensures
            r is Some == (client.java_version is Some && first_with_major(
                java.spec_list(),
                client.java_version->0.major_version,
            ) is Some),
            r matches Some(c) ==> c@ == map![
                "current_java_path"@ => java.spec_list()[first_with_major(
                    java.spec_list(),
                    client.java_version->0.major_version,
                )->0].path@,
            ],
    {
        match &client.java_version {
            None => None,
            Some(v) => match java.find_major(v.major_version) {
                None => None,
                Some(j) => {
                    let mut entries: Vec<(String, String)> = Vec::new();
                    entries.push(("current_java_path".to_owned(), copy_string(&j.path)));
                    let c = Config::new(entries);
                    proof {
                        crate::config::lemma_single_entry(entries@);
                    }
                    Some(c)
                },
            },
        }
    }
}

/// For a descriptor of the older shape, the launch tokens open with the
/// natives directory option, `-cp` and the computed classpath, followed by the
/// main class.
pub proof fn lemma_legacy_launch_prefix(
    profile: Profile,
    client: Client,
    config: Config,
    platform: Platform,
)
    requires
        client.arguments is MinecraftArgs,
    ensures
        ({
            let v = profile.spec_arguments(client, config, platform);
            &&& v.len() >= 4
            &&& v[0] == "-Djava.library.path="@ + profile.spec_natives_dir()
            &&& v[1] == "-cp"@
            &&& v[2] == spec_classpath(
                client,
                profile.spec_libs_root(),
                profile.spec_client_jar_path(),
                platform,
            )
            &&& v[3] == client.main_class@
        }),
{
    let values = profile.spec_placeholders(client, config, platform);
    let jvm = legacy_jvm_tokens();
    reveal_strlit("-Djava.library.path=${natives_directory}");
    reveal_strlit("-Djava.library.path=");
    reveal_strlit("natives_directory");
    reveal_strlit("-cp");
    let prefix = "-Djava.library.path="@;
    let name = "natives_directory"@;
    assert(jvm[0] == prefix + seq!['$', '{'] + name + seq!['}']);
    assert forall|m: int| 0 <= m < prefix.len() implies #[trigger] prefix[m] != '$' by {}
    assert forall|m: int| 0 <= m < name.len() implies name_char(#[trigger] name[m]) by {}
    lemma_trailing_placeholder(prefix, name, values);
    reveal_strlit("game_directory");
    reveal_strlit("assets_root");
    reveal_strlit("game_assets");
    reveal_strlit("assets_index_name");
    reveal_strlit("version_name");
    reveal_strlit("classpath");
    assert(name.len() == 17);
    assert("assets_index_name"@[0] == 'a');
    assert(resolve_placeholder(values, name) == values.natives_directory);
    assert forall|m: int| 0 <= m < jvm[1].len() implies #[trigger] jvm[1][m] != '$' by {}
    lemma_plain_token(jvm[1], values);
    lemma_classpath_token(values);
}

/// Index of the first profile named `name`.
pub open spec fn first_named(list: Seq<ProfileMetadata>, name: Seq<char>) -> Option<int>
    decreases list.len(),
{
    if list.len() == 0 {
        None
    } else {
        match first_named(list.drop_last(), name) {
            Some(i) => Some(i),
            None => if list.last().spec_name() == name {
                Some(list.len() - 1)
            } else {
                None
            },
        }
    }
}

proof fn lemma_first_named(list: Seq<ProfileMetadata>, name: Seq<char>, i: int)
    requires
        0 <= i <= list.len(),
        forall|j: int| 0 <= j < i ==> #[trigger] list[j].spec_name() != name,
    ensures
        i < list.len() && list[i].spec_name() == name ==> first_named(list, name) == Some(i),
        i == list.len() ==> first_named(list, name) is None,
    decreases list.len(),
{
    if list.len() > 0 {
        if i < list.len() {
            lemma_first_named(list.drop_last(), name, i);
        } else {
            lemma_first_named(list.drop_last(), name, i - 1);
        }
    }
}

/// The registered profiles, in the order they were added, and the directory
/// that holds their directories.
#[derive(Debug, Clone)]
pub struct Profiles {
    profiles: Vec<ProfileMetadata>,
    root: String,
}

impl Profiles {
    pub closed spec fn spec_list(&self) -> Seq<ProfileMetadata> {
        self.profiles@
    }

    pub closed spec fn spec_root(&self) -> Seq<char> {
        self.root@
    }

    pub fn new(profiles: Vec<ProfileMetadata>, root: String) -> (r: Profiles)
        ensures
            r.spec_list() == profiles@,
            r.spec_root() == root@,
    {
        Profiles { profiles, root }
    }

    pub fn root(&self) -> (r: &str)
        ensures
            r@ == self.spec_root(),
    {
        self.root.as_str()
    }

    /// Every registered profile, in order.
    pub fn fetch_profiles(&self) -> (r: &Vec<ProfileMetadata>)
        ensures
            r@ == self.spec_list(),
    {
        &self.profiles
    }

    /// The profile at `index`.
    pub fn get(&self, index: usize) -> (r: Option<&ProfileMetadata>)
        ensures
            r is Some == (index < self.spec_list().len()),
            r matches Some(p) ==> *p == self.spec_list()[index as int],
    {
        if index < self.profiles.len() {
            Some(&self.profiles[index])
        } else {
            None
        }
    }

    /// The first profile named `name`.
    pub fn get_named(&self, name: &str) -> (r: Option<&ProfileMetadata>)
        ensures
            r is Some == first_named(self.spec_list(), name@) is Some,
            r matches Some(p) ==> *p == self.spec_list()[first_named(self.spec_list(), name@)->0],
    {
        let key = name.to_owned();
        let mut i: usize = 0;
        while i < self.profiles.len()
            invariant
                i <= self.profiles@.len(),
                key@ == name@,
                forall|j: int| 0 <= j < i ==> #[trigger] self.profiles@[j].spec_name() != name@,
            decreases self.profiles.len() - i,
        {
            if self.profiles[i].name == key {
                proof {
                    lemma_first_named(self.profiles@, name@, i as int);
                }
                return Some(&self.profiles[i]);
            }
            i = i + 1;
        }
        proof {
            lemma_first_named(self.profiles@, name@, i as int);
        }
        None
    }

    /// Registers a profile after the others.
    pub fn add(&mut self, profile: ProfileMetadata)
        ensures
            final(self).spec_list() == old(self).spec_list().push(profile),
            final(self).spec_root() == old(self).spec_root(),
    {
        self.profiles.push(profile);
    }

    /// The profile named `name`, with the launcher's directories; None where
    /// no profile has that name.
    pub fn get_profile(&self, name: &str, launcher_root: &str, libs_root: &str, assets_root: &str) -> (r:
        Option<Profile>)
        ensures
            r is Some == first_named(self.spec_list(), name@) is Some,
            r matches Some(p) ==> {
                let m = self.spec_list()[first_named(self.spec_list(), name@)->0];
                &&& p.spec_metadata().spec_name() == m.spec_name()
                &&& p.spec_metadata().spec_version() == m.spec_version()
                &&& p.spec_launcher_root() == launcher_root@
                &&& p.spec_libs_root() == libs_root@
                &&& p.spec_assets_root() == assets_root@
                &&& p.spec_dir() == spec_join_path(self.spec_root(), m.spec_name())
            },
    {
        match self.get_named(name) {
            None => None,
            Some(m) => Some(
                Profile::new(m.copy(), launcher_root, self.root.as_str(), libs_root, assets_root),
            ),
        }
    }
}

} // verus!
