use segestria_core::minecraft::launch::{
    aikar_flags, build_command, build_placeholder_values, classpath_string, jvm_args_for_ram, latest_log_path,
    performance_jvm_args, substitute, LaunchContext, LaunchOptions,
};
use segestria_core::minecraft::rules::{ArchKind, Host, OsKind, Rule};
use segestria_core::minecraft::version_manifest::{
    resolve_version, ArgEntry, ArgValue, Arguments, AssetIndexRef, ConditionalArg, RawVersionInfo, ResolvedVersion,
};
use segestria_core::paths::FsPath;
use segestria_core::profile::{offline_uuid, Settings};
use segestria_core::strmap::StrMap;

fn linux() -> Host {
    Host { os: OsKind::Linux, arch: ArchKind::X86_64, pointer_width_64: true }
}

fn windows() -> Host {
    Host { os: OsKind::Windows, arch: ArchKind::X86_64, pointer_width_64: true }
}

fn settings(username: &str, server_ip: &str, ram: Option<u32>, extra: &str) -> Settings {
    Settings {
        username: username.to_string(),
        server_ip: server_ip.to_string(),
        server_port: 25565,
        allocated_ram_mb: ram,
        extra_jvm_args: extra.to_string(),
    }
}

fn pairs(v: &[(&str, &str)]) -> Vec<(String, String)> {
    v.iter().map(|(k, x)| (k.to_string(), x.to_string())).collect()
}

fn plain(a: &str) -> ArgEntry {
    ArgEntry::Plain(a.to_string())
}

fn quick_play_only(values: &[&str]) -> ArgEntry {
    let mut f = StrMap::new();
    f.insert("is_quick_play_multiplayer".to_string(), true);
    ArgEntry::Conditional(ConditionalArg {
        rules: vec![Rule { action: "allow".to_string(), os: None, features: Some(f) }],
        value: ArgValue::Multiple(values.iter().map(|s| s.to_string()).collect()),
    })
}

fn version() -> ResolvedVersion {
    let raw = RawVersionInfo {
        id: "1.20.1".to_string(),
        main_class: Some("net.minecraft.client.main.Main".to_string()),
        arguments: Some(Arguments {
            game: vec![
                plain("--username"),
                plain("${auth_player_name}"),
                plain("--uuid"),
                plain("${auth_uuid}"),
                plain("--assetIndex"),
                plain("${assets_index_name}"),
                quick_play_only(&["--quickPlayMultiplayer", "${quick_play_multiplayer}"]),
            ],
            jvm: vec![plain("-Djava.library.path=${natives_directory}"), plain("-cp"), plain("${classpath}")],
        }),
        libraries: vec![],
        downloads: None,
        asset_index: Some(AssetIndexRef { id: "5".to_string(), url: String::new(), sha1: String::new(), size: 0 }),
        assets: None,
        java_version: None,
        inherits_from: None,
    };
    resolve_version("1.20.1", vec![raw]).unwrap()
}

fn options() -> LaunchOptions {
    LaunchOptions {
        natives_dir: "/d/natives/1.20.1".to_string(),
        library_classpath: vec!["/d/libs/a.jar".to_string(), "/d/libs/b.jar".to_string()],
        client_jar: "/d/versions/1.20.1/1.20.1.jar".to_string(),
    }
}

fn context(host: Host) -> LaunchContext {
    LaunchContext {
        launcher_version: "0.1.0".to_string(),
        library_directory: "/d/libs".to_string(),
        game_directory: "/d/instance".to_string(),
        assets_root: "/d/assets".to_string(),
        host,
    }
}

#[test]
fn substitution_replaces_every_occurrence() {
    let values = pairs(&[("a", "1"), ("b", "two")]);
    assert_eq!(substitute("${a}-${b}-${a}", &values), "1-two-1");
    assert_eq!(substitute("${c}", &values), "${c}");
    assert_eq!(substitute("plain", &values), "plain");
    assert_eq!(substitute("${a", &values), "${a");
    assert_eq!(substitute("", &values), "");
    assert_eq!(substitute("${a}", &vec![]), "${a}");
}

#[test]
fn classpath_separators() {
    let paths = vec!["a.jar".to_string(), "b.jar".to_string(), "c.jar".to_string()];
    assert_eq!(classpath_string(&paths, &linux()), "a.jar:b.jar:c.jar");
    assert_eq!(classpath_string(&paths, &windows()), "a.jar;b.jar;c.jar");
    assert_eq!(classpath_string(&vec![], &linux()), "");
    assert_eq!(classpath_string(&vec!["only.jar".to_string()], &windows()), "only.jar");
}

#[test]
fn memory_and_garbage_collector_flags() {
    let args = jvm_args_for_ram(4096, &settings("p", "", None, "  -Dfoo=1 \t -Dbar=2  "));
    assert_eq!(args[0], "-Xms4096M");
    assert_eq!(args[1], "-Xmx4096M");
    let aikar = aikar_flags();
    assert_eq!(aikar.len(), 18);
    assert_eq!(aikar[0], "-XX:+UseG1GC");
    assert_eq!(aikar[17], "-XX:MaxTenuringThreshold=1");
    assert_eq!(&args[2..20], &aikar[..]);
    assert_eq!(&args[20..], &["-Dfoo=1".to_string(), "-Dbar=2".to_string()]);

    let args = jvm_args_for_ram(2048, &settings("p", "", None, "   "));
    assert_eq!(args.len(), 20);
}

#[test]
fn chosen_ram_wins_over_the_suggestion() {
    let args = performance_jvm_args(&settings("p", "", Some(3000), ""));
    assert_eq!(args[0], "-Xms3000M");
    assert_eq!(args[1], "-Xmx3000M");
    assert_eq!(args.len(), 20);

    let args = performance_jvm_args(&settings("p", "", None, ""));
    let ram: u32 = args[0].trim_start_matches("-Xms").trim_end_matches('M').parse().unwrap();
    assert!((2048..=8192).contains(&ram));
    assert_eq!(args[1], format!("-Xmx{ram}M"));
}

#[test]
fn placeholder_values() {
    let v = version();
    let values = build_placeholder_values(&v, &options(), &settings("Steve", " mc.example.org ", None, ""), true, &context(linux()));
    let get = |k: &str| values.iter().find(|(key, _)| key == k).map(|(_, x)| x.clone());
    assert_eq!(get("natives_directory").as_deref(), Some("/d/natives/1.20.1"));
    assert_eq!(get("launcher_name").as_deref(), Some("SegestriaLauncher"));
    assert_eq!(get("launcher_version").as_deref(), Some("0.1.0"));
    assert_eq!(get("classpath").as_deref(), Some("/d/libs/a.jar:/d/libs/b.jar:/d/versions/1.20.1/1.20.1.jar"));
    assert_eq!(get("library_directory").as_deref(), Some("/d/libs"));
    assert_eq!(get("classpath_separator").as_deref(), Some(":"));
    assert_eq!(get("auth_player_name").as_deref(), Some("Steve"));
    assert_eq!(get("version_name").as_deref(), Some("1.20.1"));
    assert_eq!(get("game_directory").as_deref(), Some("/d/instance"));
    assert_eq!(get("assets_root").as_deref(), Some("/d/assets"));
    assert_eq!(get("assets_index_name").as_deref(), Some("5"));
    assert_eq!(get("auth_uuid"), Some(offline_uuid("Steve").to_hyphenated_string()));
    assert_eq!(get("auth_access_token").as_deref(), Some("0"));
    assert_eq!(get("clientid").as_deref(), Some("0"));
    assert_eq!(get("auth_xuid").as_deref(), Some("0"));
    assert_eq!(get("user_type").as_deref(), Some("legacy"));
    assert_eq!(get("version_type").as_deref(), Some("release"));
    assert_eq!(get("quick_play_multiplayer").as_deref(), Some("mc.example.org:25565"));
    assert_eq!(values.len(), 18);

    let values = build_placeholder_values(&v, &options(), &settings("Steve", "", None, ""), false, &context(windows()));
    assert_eq!(values.len(), 17);
    assert!(values.iter().all(|(k, _)| k != "quick_play_multiplayer"));
    let cp = values.iter().find(|(k, _)| k == "classpath").unwrap();
    assert_eq!(cp.1, "/d/libs/a.jar;/d/libs/b.jar;/d/versions/1.20.1/1.20.1.jar");
}

#[test]
fn command_line_of_the_game() {
    let v = version();
    let s = settings("Steve", "", Some(4096), "-Dx=1");
    let cmd = build_command(&v, "/usr/bin/java", &options(), &s, &context(linux())).unwrap();
    assert_eq!(cmd.program, "/usr/bin/java");
    assert_eq!(cmd.current_dir, "/d/instance");
    let mut expected = vec!["-Xms4096M".to_string(), "-Xmx4096M".to_string()];
    expected.extend(aikar_flags());
    expected.push("-Dx=1".to_string());
    expected.push("-Djava.library.path=/d/natives/1.20.1".to_string());
    expected.push("-cp".to_string());
    expected.push("/d/libs/a.jar:/d/libs/b.jar:/d/versions/1.20.1/1.20.1.jar".to_string());
    expected.push("net.minecraft.client.main.Main".to_string());
    expected.push("--username".to_string());
    expected.push("Steve".to_string());
    expected.push("--uuid".to_string());
    expected.push(offline_uuid("Steve").to_hyphenated_string());
    expected.push("--assetIndex".to_string());
    expected.push("5".to_string());
    assert_eq!(cmd.args, expected);
}

#[test]
fn command_joins_the_server_when_one_is_set() {
    let v = version();
    let s = settings("Steve", "play.example.org", Some(4096), "");
    let cmd = build_command(&v, "java", &options(), &s, &context(linux())).unwrap();
    let n = cmd.args.len();
    assert_eq!(cmd.args[n - 2], "--quickPlayMultiplayer");
    assert_eq!(cmd.args[n - 1], "play.example.org:25565");
}

#[test]
fn log_file_location() {
    let data = FsPath::from_root("/data").join("SegestriaLauncher");
    let p = latest_log_path(&data);
    assert_eq!(p.root, "/data");
    assert_eq!(p.parts, vec!["SegestriaLauncher", "instances", "default", "logs", "segestria-latest.log"]);
}
