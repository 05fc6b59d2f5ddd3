use std::io::Write;

use crab_launcher::archive::is_safe_name;
use crab_launcher::{source_of, Source};

use crab_launcher::{
    asset_object_job, exit_outcome, extract, is_excluded, launch_command, missing_jobs,
    split_char, substitute, Action, ArgValue, Arch, Argument, Arguments, BoundedBatch, Client,
    Config, CoreError, Download, DownloadError, Downloads, Event, Extract, JavaInstallation,
    JavaManager, Library, LibraryDownload, Os, OsName, Placeholders, Platform, Profile,
    ProfileMetadata, Profiles, Rule, RuleAction, Stage, Step, Version, VersionManifest,
};

fn linux() -> Platform {
    Platform { os: OsName::Linux, arch: Arch::X86_64 }
}

fn windows() -> Platform {
    Platform { os: OsName::Windows, arch: Arch::X86_64 }
}

fn rule(action: RuleAction, os: Option<OsName>) -> Rule {
    Rule { action, features: None, os: os.map(|name| Os { name: Some(name), arch: None }) }
}

fn download(path: Option<&str>, url: &str) -> Download {
    Download {
        sub_path: path.map(|p| p.to_string()),
        sha1: "0".to_string(),
        size: 1,
        url: url.to_string(),
    }
}

fn config(entries: &[(&str, &str)]) -> Config {
    Config::new(entries.iter().map(|(k, v)| (k.to_string(), v.to_string())).collect())
}

fn strings(v: &[&str]) -> Vec<String> {
    v.iter().map(|s| s.to_string()).collect()
}

fn client(arguments: Arguments, libraries: Vec<Library>) -> Client {
    Client {
        arguments,
        asset_index: download(None, "https://example.com/index.json"),
        assets: "5".to_string(),
        downloads: Downloads { client: download(None, "https://example.com/client.jar") },
        java_version: None,
        libraries,
        main_class: "net.minecraft.client.main.Main".to_string(),
    }
}

fn profile(version: &str) -> Profile {
    let meta = ProfileMetadata::new("main".to_string(), version.to_string());
    Profile::new(meta, "launcher", "launcher/profiles", "launcher/libs", "launcher/assets")
}

fn placeholders(classpath: &str, config: Config) -> Placeholders {
    Placeholders {
        game_directory: "game".to_string(),
        assets_root: "assets".to_string(),
        assets_index_name: "5".to_string(),
        version_name: "1.20.1".to_string(),
        classpath: classpath.to_string(),
        natives_directory: "game/.natives".to_string(),
        config,
    }
}

#[test]
fn rule_action_table() {
    let p = linux();
    assert!(rule(RuleAction::Allow, Some(OsName::Linux)).is_allowed(&p));
    assert!(!rule(RuleAction::Allow, Some(OsName::Osx)).is_allowed(&p));
    assert!(!rule(RuleAction::Disallow, Some(OsName::Linux)).is_allowed(&p));
    assert!(rule(RuleAction::Disallow, Some(OsName::Osx)).is_allowed(&p));
}

#[test]
fn rule_with_features_never_matches() {
    let mut r = rule(RuleAction::Allow, None);
    r.features = Some(vec![("is_demo_user".to_string(), true)]);
    assert!(!r.matches(&linux()));
    assert!(!r.is_allowed(&linux()));
    r.action = RuleAction::Disallow;
    assert!(r.is_allowed(&linux()));
}

#[test]
fn os_filter_checks_arch() {
    let os = Os { name: None, arch: Some(Arch::X86) };
    assert!(!os.matches(&linux()));
    assert!(Os { name: Some(OsName::Linux), arch: Some(Arch::X86_64) }.matches(&linux()));
    assert!(Os { name: None, arch: None }.matches(&windows()));
}

fn library(rules: Option<Vec<Rule>>) -> Library {
    Library {
        downloads: LibraryDownload { artifact: Some(download(Some("a/b.jar"), "u")), classifiers: None },
        extract: None,
        natives: None,
        rules,
    }
}

#[test]
fn library_rules_are_joined_by_and() {
    let p = linux();
    assert!(library(None).is_allowed(&p));
    assert!(library(Some(vec![])).is_allowed(&p));
    let allow_all_but_osx = vec![rule(RuleAction::Allow, None), rule(RuleAction::Disallow, Some(OsName::Osx))];
    assert!(library(Some(allow_all_but_osx.clone())).is_allowed(&p));
    let only_osx = vec![rule(RuleAction::Allow, None), rule(RuleAction::Allow, Some(OsName::Osx))];
    assert!(!library(Some(only_osx)).is_allowed(&p));
    let c = client(Arguments::MinecraftArgs(String::new()), vec![library(None), library(Some(vec![rule(RuleAction::Allow, Some(OsName::Windows))]))]);
    assert_eq!(c.libs(&p).len(), 1);
    assert_eq!(c.libs(&windows()).len(), 2);
}

#[test]
fn platform_native_resolves_classifier() {
    let lib = Library {
        downloads: LibraryDownload {
            artifact: None,
            classifiers: Some(vec![
                ("natives-windows".to_string(), download(Some("n/win.jar"), "w")),
                ("natives-linux".to_string(), download(Some("n/linux.jar"), "l")),
            ]),
        },
        extract: None,
        natives: Some(vec![(OsName::Linux, "natives-linux".to_string()), (OsName::Windows, "natives-windows".to_string())]),
        rules: None,
    };
    assert_eq!(lib.platform_native(&linux()).unwrap().url, "l");
    assert_eq!(lib.platform_native(&windows()).unwrap().url, "w");
    assert!(lib.platform_native(&Platform { os: OsName::Osx, arch: Arch::ARM64 }).is_none());
}

#[test]
fn structured_arguments_keep_declared_order() {
    let args = Arguments::Args {
        game: vec![
            Argument::Arg("--demo".to_string()),
            Argument::Rule { rules: vec![rule(RuleAction::Allow, Some(OsName::Osx))], value: ArgValue::Value("--mac".to_string()) },
            Argument::Rule { rules: vec![rule(RuleAction::Allow, None)], value: ArgValue::Values(strings(&["--width", "800"])) },
        ],
        jvm: vec![Argument::Arg("-Xss1M".to_string())],
    };
    let (jvm, game) = args.into_raw(&linux());
    assert_eq!(jvm, strings(&["-Xss1M"]));
    assert_eq!(game, strings(&["--demo", "--width", "800"]));
}

#[test]
fn legacy_arguments_get_synthetic_jvm_tokens() {
    let (jvm, game) = Arguments::MinecraftArgs("--a  b ".to_string()).into_raw(&linux());
    assert_eq!(jvm, strings(&["-Djava.library.path=${natives_directory}", "-cp", "${classpath}"]));
    assert_eq!(game, strings(&["--a", "", "b", ""]));
    let (jvm, game) = Arguments::MinecraftArgs(String::new()).into_raw(&linux());
    assert_eq!(jvm.len(), 3);
    assert_eq!(game, strings(&[""]));
}

#[test]
fn split_keeps_empty_pieces() {
    assert_eq!(split_char("a/b//c", '/'), strings(&["a", "b", "", "c"]));
    assert_eq!(split_char("héllo wörld", ' '), strings(&["héllo", "wörld"]));
}

#[test]
fn placeholder_classpath_and_unknown() {
    let ctx = placeholders("x.jar:y.jar", Config::empty());
    assert_eq!(substitute("${classpath}", &ctx), "x.jar:y.jar");
    assert_eq!(substitute("${totally_unknown}", &ctx), "");
    assert_eq!(substitute("-cp=${classpath};${version_name}", &ctx), "-cp=x.jar:y.jar;1.20.1");
}

#[test]
fn placeholder_edge_cases() {
    let ctx = placeholders("cp", config(&[("auth_player_name", "Steve"), ("game_directory", "ignored")]));
    assert_eq!(substitute("no placeholders", &ctx), "no placeholders");
    assert_eq!(substitute("${}", &ctx), "${}");
    assert_eq!(substitute("${a-b}", &ctx), "${a-b}");
    assert_eq!(substitute("${auth_player_name", &ctx), "${auth_player_name");
    assert_eq!(substitute("$${auth_player_name}}", &ctx), "$Steve}");
    assert_eq!(substitute("${game_directory}", &ctx), "game");
    assert_eq!(substitute("${game_assets}/${assets_root}", &ctx), "assets/assets");
    assert_eq!(substitute("${natives_directory}${assets_index_name}", &ctx), "game/.natives5");
    assert_eq!(substitute("${ünï}", &config_ctx("ünï", "u")), "u");
}

fn config_ctx(k: &str, v: &str) -> Placeholders {
    placeholders("cp", config(&[(k, v)]))
}

#[test]
fn config_merge_prefers_profile() {
    let global = config(&[("min_ram", "512"), ("max_ram", "2048")]);
    let own = config(&[("max_ram", "4096"), ("auth_player_name", "Steve")]);
    let merged = own.merge(global);
    assert_eq!(merged.get("min_ram"), Some("512"));
    assert_eq!(merged.get("max_ram"), Some("4096"));
    assert_eq!(merged.get("auth_player_name"), Some("Steve"));
    assert_eq!(merged.get("missing"), None);
}

#[test]
fn config_set_and_remove() {
    let mut c = config(&[("a", "1"), ("a", "2")]);
    assert_eq!(c.get("a"), Some("2"));
    c.set("b", "3".to_string());
    c.set("b", "4".to_string());
    assert_eq!(c.get("b"), Some("4"));
    c.remove("a");
    assert_eq!(c.get("a"), None);
    assert_eq!(c.copy().get("b"), Some("4"));
}

#[test]
fn profile_get_config_layers() {
    let p = profile("1.20.1");
    let global = config(&[("min_ram", "512")]);
    assert_eq!(p.get_config(config(&[("min_ram", "1024")]).copy(), None).get("min_ram"), Some("1024"));
    let c = p.get_config(global, Some(config(&[("min_ram", "256")])));
    assert_eq!(c.get("min_ram"), Some("256"));
}

#[test]
fn default_config_needs_java() {
    assert!(Config::create_default(None).is_none());
    let java = JavaInstallation { path: "/usr/bin/java".to_string(), major: 17, minor: 0, patch: 2 };
    let c = Config::create_default(Some(&java)).unwrap();
    assert_eq!(c.get("min_ram"), Some("512"));
    assert_eq!(c.get("max_ram"), Some("2048"));
    assert_eq!(c.get("auth_player_name"), Some("dev"));
    assert_eq!(c.get("auth_access_token"), Some("0"));
    assert_eq!(c.get("current_java_path"), Some("/usr/bin/java"));
}

#[test]
fn profile_paths() {
    let p = profile("1.20.1");
    assert_eq!(p.dir_path(), "launcher/profiles/main");
    assert_eq!(p.client_json_path(), "launcher/profiles/main/client.json");
    assert_eq!(p.config_path(), "launcher/profiles/main/config.json");
    assert_eq!(p.client_jar_path(), "launcher/profiles/main/client.jar");
    assert_eq!(p.natives_dir(), "launcher/profiles/main/.natives");
    assert_eq!(p.name(), "main");
    assert_eq!(p.version(), "1.20.1");
}

#[test]
fn classpath_order_and_separator() {
    let native_lib = Library {
        downloads: LibraryDownload {
            artifact: Some(download(Some("org/lwjgl/lwjgl.jar"), "a")),
            classifiers: Some(vec![("natives-linux".to_string(), download(Some("org/lwjgl/natives.jar"), "n"))]),
        },
        extract: None,
        natives: Some(vec![(OsName::Linux, "natives-linux".to_string())]),
        rules: None,
    };
    let skipped = library(Some(vec![rule(RuleAction::Allow, Some(OsName::Osx))]));
    let c = client(Arguments::MinecraftArgs(String::new()), vec![native_lib, skipped, library(None)]);
    let p = profile("1.20.1");
    assert_eq!(
        p.classpath(&c, &linux()),
        "launcher/libs/org/lwjgl/natives.jar:launcher/libs/org/lwjgl/lwjgl.jar:launcher/libs/a/b.jar:launcher/profiles/main/client.jar"
    );
    assert_eq!(
        p.classpath(&client(Arguments::MinecraftArgs(String::new()), vec![library(None)]), &windows()),
        "launcher/libs/a/b.jar;launcher/profiles/main/client.jar"
    );
}

#[test]
fn legacy_descriptor_end_to_end() {
    let c = client(
        Arguments::MinecraftArgs("--username ${auth_player_name} --version ${version_name}".to_string()),
        vec![],
    );
    let p = profile("1.20.1");
    let cfg = config(&[("auth_player_name", "Steve")]);
    let classpath = p.classpath(&c, &linux());
    let args = p.generate_arguments(c, &cfg, &linux());
    let natives = format!("-Djava.library.path={}", p.natives_dir());
    assert_eq!(
        args,
        vec![
            natives,
            "-cp".to_string(),
            classpath.clone(),
            "net.minecraft.client.main.Main".to_string(),
            "--username".to_string(),
            "Steve".to_string(),
            "--version".to_string(),
            "1.20.1".to_string(),
        ]
    );
    assert_eq!(classpath, "launcher/profiles/main/client.jar");
}

#[test]
fn launch_command_needs_keys() {
    let args = strings(&["Main"]);
    assert!(launch_command(&config(&[("max_ram", "1")]), args.clone()).is_none());
    let cfg = config(&[("current_java_path", "/bin/java"), ("max_ram", "2048"), ("min_ram", "512")]);
    let cmd = launch_command(&cfg, args).unwrap();
    assert_eq!(cmd.program, "/bin/java");
    assert_eq!(cmd.args, strings(&["-Xmx2048M", "-Xms512M", "Main"]));
}

#[test]
fn exit_codes() {
    assert!(exit_outcome(0).is_ok());
    assert!(matches!(exit_outcome(3), Err(CoreError::MinecraftFailure(3))));
}

#[test]
fn download_error_kinds() {
    assert!(matches!(DownloadError::classify(true, true, Some(404), String::new()), DownloadError::Timeout));
    assert!(matches!(DownloadError::classify(false, true, Some(404), String::new()), DownloadError::InvaildUrl));
    assert!(matches!(DownloadError::classify(false, false, Some(404), String::new()), DownloadError::Status(404)));
    assert!(matches!(DownloadError::classify(false, false, None, "x".to_string()), DownloadError::Other(m) if m == "x"));
}

#[test]
fn version_lookup() {
    let m = VersionManifest {
        versions: vec![
            Version { id: "1.20.1".to_string(), url: "u1".to_string() },
            Version { id: "1.19".to_string(), url: "u2".to_string() },
            Version { id: "1.20.1".to_string(), url: "u3".to_string() },
        ],
    };
    assert_eq!(m.resolve_version_url("1.20.1").unwrap(), "u1");
    assert_eq!(m.resolve_version_url("1.19").unwrap(), "u2");
    assert!(matches!(m.resolve_version_url("2.0"), Err(CoreError::MinecraftVersionNotFound)));
}

#[test]
fn profiles_lookup() {
    let mut ps = Profiles::new(vec![], "launcher/profiles".to_string());
    assert!(ps.get_named("a").is_none());
    ps.add(ProfileMetadata::new("a".to_string(), "1.0".to_string()));
    ps.add(ProfileMetadata::new("b".to_string(), "2.0".to_string()));
    assert_eq!(ps.get_named("b").unwrap().version(), "2.0");
    assert_eq!(ps.get(0).unwrap().name(), "a");
    assert!(ps.get(2).is_none());
    let p = ps.get_profile("b", "launcher", "libs", "assets").unwrap();
    assert_eq!(p.dir_path(), "launcher/profiles/b");
    assert!(ps.get_profile("c", "launcher", "libs", "assets").is_none());
}

#[test]
fn java_selection() {
    let jm = JavaManager::new(vec![
        JavaInstallation { path: "/j21".to_string(), major: 21, minor: 0, patch: 1 },
        JavaInstallation { path: "/j17".to_string(), major: 17, minor: 0, patch: 9 },
    ]);
    assert_eq!(jm.latest().unwrap().path, "/j21");
    assert_eq!(jm.find_major(17).unwrap().path, "/j17");
    assert!(jm.find_major(8).is_none());
    let mut c = client(Arguments::MinecraftArgs(String::new()), vec![]);
    assert!(Profile::java_override(&c, &jm).is_none());
    c.java_version = Some(crab_launcher::JavaVersion { component: "java-runtime-gamma".to_string(), major_version: 17 });
    assert_eq!(Profile::java_override(&c, &jm).unwrap().get("current_java_path"), Some("/j17"));
    assert!(JavaManager::new(vec![]).latest().is_none());
}

#[test]
fn asset_object_paths() {
    let job = asset_object_job("assets", "ab12cd").unwrap();
    assert_eq!(job.path, "assets/objects/ab/ab12cd");
    assert_eq!(job.url, "https://resources.download.minecraft.net/ab/ab12cd");
    assert!(asset_object_job("assets", "a").is_none());
}

#[test]
fn install_jobs_for_client() {
    let c = client(Arguments::MinecraftArgs(String::new()), vec![Library {
        downloads: LibraryDownload {
            artifact: Some(download(Some("x/y.jar"), "art")),
            classifiers: Some(vec![("natives-linux".to_string(), download(Some("x/n.jar"), "nat"))]),
        },
        extract: Some(Extract { exclude: Some(strings(&["META-INF/"])) }),
        natives: Some(vec![(OsName::Linux, "natives-linux".to_string())]),
        rules: None,
    }]);
    let jobs = crab_launcher::library_jobs(&c, "libs", &linux());
    assert_eq!(jobs.len(), 1);
    assert_eq!(jobs[0].artifact.as_ref().unwrap().path, "libs/x/y.jar");
    assert_eq!(jobs[0].native.as_ref().unwrap().url, "nat");
    assert_eq!(jobs[0].exclude, Some(strings(&["META-INF/"])));
    let jar = crab_launcher::client_jar_job(&c, "p/main");
    assert_eq!(jar.path, "p/main/client.jar");
    let index = crab_launcher::asset_index_job(&c, "assets");
    assert_eq!(index.path, "assets/indexes/5.json");
}

#[test]
fn second_install_fetches_nothing() {
    assert_eq!(missing_jobs(&vec![true, false, true, false]), vec![1, 3]);
    assert!(missing_jobs(&vec![true, true, true]).is_empty());
}

#[test]
fn bounded_batch_never_exceeds_limit() {
    let mut batch = BoundedBatch::new(5, 2);
    let mut started = Vec::new();
    let mut max_in_flight = 0;
    loop {
        match batch.next_step() {
            Step::Start(i) => started.push(i),
            Step::Wait => assert!(batch.complete()),
            Step::Finished => break,
        }
        max_in_flight = max_in_flight.max(batch.in_flight());
    }
    assert_eq!(started, vec![0, 1, 2, 3, 4]);
    assert_eq!(max_in_flight, 2);
    assert!(!batch.complete());
}

#[test]
fn pipeline_stage_order() {
    let mut s = Stage::Uninitialized;
    let mut actions = Vec::new();
    while s.action() != Action::Stop {
        actions.push(s.action());
        s = s.next(if s == Stage::Running { Event::Exited(0) } else { Event::Done });
    }
    assert_eq!(actions, vec![Action::EnsureDescriptor, Action::InstallAssets, Action::InstallLibraries, Action::InstallClientJar, Action::Launch, Action::AwaitExit]);
    assert_eq!(s, Stage::Succeeded);
    assert_eq!(Stage::AssetsInstalled.next(Event::Failed), Stage::Failed);
    assert_eq!(Stage::Running.next(Event::Exited(1)), Stage::Failed);
}

fn zip_of(names: &[&str]) -> Vec<u8> {
    let mut w = zip::ZipWriter::new(std::io::Cursor::new(Vec::new()));
    for name in names {
        w.start_file(*name, zip::write::SimpleFileOptions::default()).unwrap();
        w.write_all(name.as_bytes()).unwrap();
    }
    w.finish().unwrap().into_inner()
}

#[test]
fn extraction_excludes_directory() {
    let bytes = zip_of(&["a/b.so", "a/c.so", "d/e.so"]);
    let out = extract(&bytes, &strings(&["a"]), "natives").unwrap();
    assert_eq!(out.len(), 1);
    assert_eq!(out[0].path, "natives/d/e.so");
    assert_eq!(out[0].data, b"d/e.so".to_vec());
    assert!(!out[0].is_dir);
}

#[test]
fn extraction_keeps_all_without_excludes() {
    let bytes = zip_of(&["META-INF/MANIFEST.MF", "libx.so"]);
    let out = extract(&bytes, &vec![], "n").unwrap();
    assert_eq!(out.len(), 2);
    let out = extract(&bytes, &strings(&["META-INF/"]), "n").unwrap();
    assert_eq!(out.len(), 1);
    assert_eq!(out[0].path, "n/libx.so");
}

#[test]
fn extraction_rejects_garbage() {
    assert!(matches!(extract(b"not a zip", &vec![], "n"), Err(CoreError::ZipError(_))));
}

#[test]
fn exclusion_by_ancestor() {
    let ex = strings(&["a"]);
    assert!(is_excluded("a/b/c.so", &ex));
    assert!(is_excluded("a", &ex));
    assert!(!is_excluded("ab/c.so", &ex));
    assert!(is_excluded("./a//b.so", &ex));
    assert!(!is_excluded("x.so", &strings(&[""])));
}

#[test]
fn safe_names() {
    assert!(is_safe_name("a/b.so"));
    assert!(is_safe_name("a/../b.so"));
    assert!(is_safe_name("./x"));
    assert!(!is_safe_name("../b.so"));
    assert!(!is_safe_name("a/../../b.so"));
    assert!(!is_safe_name("/etc/passwd"));
    assert!(!is_safe_name("a\0b"));
}

#[test]
fn extraction_writes_only_below_destination() {
    let bytes = zip_of(&["ok.so", "a/../b.so"]);
    let out = extract(&bytes, &vec![], "n").unwrap();
    let paths: Vec<&str> = out.iter().map(|e| e.path.as_str()).collect();
    assert_eq!(paths, vec!["n/ok.so", "n/a/../b.so"]);
}

#[test]
fn files_on_disk_are_not_fetched() {
    assert_eq!(source_of(true), Source::Disk);
    assert_eq!(source_of(false), Source::Network);
}
