use segestria_core::minecraft::download::{
    asset_index_request, asset_object_request, asset_progress_due, asset_progress_message, check_download,
    client_jar_request, extract_entry, file_matches, has_file_name, library_artifact_download, maven_path, part_path,
    plan_libraries, sha1_hex, trim_end_char, with_extension, AssetObject, ASSET_BASE_URL,
};
use segestria_core::minecraft::rules::{ArchKind, Host, OsKind, OsRule, Rule};
use segestria_core::minecraft::version_manifest::{
    resolve_version, Arguments, AssetIndexRef, DownloadInfo, Downloads, ExtractRules, Library, LibraryDownloads,
    RawVersionInfo, ResolvedVersion,
};
use segestria_core::paths::FsPath;
use segestria_core::strmap::StrMap;
use segestria_core::Error;

fn linux() -> Host {
    Host { os: OsKind::Linux, arch: ArchKind::X86_64, pointer_width_64: true }
}

fn windows() -> Host {
    Host { os: OsKind::Windows, arch: ArchKind::X86_64, pointer_width_64: true }
}

fn data() -> FsPath {
    FsPath::from_root("/home/p/.local/share").join("SegestriaLauncher")
}

fn render(p: &FsPath) -> String {
    let mut s = p.root.clone();
    for part in &p.parts {
        s.push('/');
        s.push_str(part);
    }
    s
}

fn info(url: &str, sha1: &str, size: u64, path: Option<&str>) -> DownloadInfo {
    DownloadInfo { url: url.to_string(), sha1: sha1.to_string(), size, path: path.map(str::to_string) }
}

fn library(name: &str) -> Library {
    Library { name: name.to_string(), url: None, downloads: None, natives: None, rules: None, extract: None }
}

fn version_with(libraries: Vec<Library>, client: Option<DownloadInfo>) -> ResolvedVersion {
    let raw = RawVersionInfo {
        id: "1.20.1".to_string(),
        main_class: Some("Main".to_string()),
        arguments: Some(Arguments::empty()),
        libraries,
        downloads: Some(Downloads { client }),
        asset_index: Some(AssetIndexRef {
            id: "5".to_string(),
            url: "https://example.invalid/indexes/5.json".to_string(),
            sha1: "feed".to_string(),
            size: 99,
        }),
        assets: None,
        java_version: None,
        inherits_from: None,
    };
    resolve_version("1.20.1", vec![raw]).unwrap()
}

#[test]
fn sha1_of_known_inputs() {
    assert_eq!(sha1_hex(b"abc"), "a9993e364706816aba3e25717850c26c9cd0d89d");
    assert_eq!(sha1_hex(b""), "da39a3ee5e6b4b0d3255bfef95601890afd80709");
}

#[test]
fn file_matching() {
    let sha = "a9993e364706816aba3e25717850c26c9cd0d89d";
    assert!(!file_matches(false, None, None, None, None));
    assert!(file_matches(true, None, None, None, None));
    assert!(file_matches(true, Some(3), Some(sha), Some(sha), Some(3)));
    assert!(file_matches(true, Some(3), Some(sha), Some("A9993E364706816ABA3E25717850C26C9CD0D89D"), Some(3)));
    assert!(!file_matches(true, Some(4), Some(sha), Some(sha), Some(3)));
    assert!(!file_matches(true, None, Some(sha), Some(sha), Some(3)));
    assert!(!file_matches(true, Some(3), None, Some(sha), Some(3)));
    assert!(!file_matches(true, Some(3), Some("00"), Some(sha), None));
    assert!(file_matches(true, Some(3), None, None, Some(3)));
}

#[test]
fn checksum_after_download() {
    assert_eq!(check_download("x.jar", None, "anything"), Ok(()));
    assert_eq!(check_download("x.jar", Some("ABCD"), "abcd"), Ok(()));
    assert_eq!(
        check_download("x.jar", Some("abcd"), "abce"),
        Err(Error::ChecksumMismatch { path: "x.jar".to_string(), expected: "abcd".to_string(), actual: "abce".to_string() })
    );
}

#[test]
fn maven_paths() {
    assert_eq!(
        maven_path("net.minecraftforge:forge:1.20.1-47.2.0", None),
        "net/minecraftforge/forge/1.20.1-47.2.0/forge-1.20.1-47.2.0.jar"
    );
    assert_eq!(
        maven_path("org.lwjgl:lwjgl:3.3.1:natives-linux", None),
        "org/lwjgl/lwjgl/3.3.1/lwjgl-3.3.1-natives-linux.jar"
    );
    assert_eq!(
        maven_path("org.lwjgl.lwjgl:lwjgl-platform:2.9.4", Some("natives-windows-64")),
        "org/lwjgl/lwjgl/lwjgl-platform/2.9.4/lwjgl-platform-2.9.4-natives-windows-64.jar"
    );
    assert_eq!(maven_path("a:b:1:x", Some("y")), "a/b/1/b-1-y.jar");
}

#[test]
fn trimming_trailing_slashes() {
    assert_eq!(trim_end_char("https://maven.example/", '/'), "https://maven.example");
    assert_eq!(trim_end_char("https://maven.example///", '/'), "https://maven.example");
    assert_eq!(trim_end_char("///", '/'), "");
    assert_eq!(trim_end_char("abc", '/'), "abc");
}

#[test]
fn artifact_of_a_library() {
    let mut lib = library("org.ow2.asm:asm:9.5");
    assert!(library_artifact_download(&lib).is_none());

    lib.url = Some("https://maven.minecraftforge.net/".to_string());
    let (path, d) = library_artifact_download(&lib).unwrap();
    assert_eq!(path, "org/ow2/asm/asm/9.5/asm-9.5.jar");
    assert_eq!(d.url, "https://maven.minecraftforge.net/org/ow2/asm/asm/9.5/asm-9.5.jar");
    assert_eq!(d.sha1, "");
    assert_eq!(d.size, 0);
    assert_eq!(d.path, None);

    lib.downloads = Some(LibraryDownloads {
        artifact: Some(info("https://libraries.example/asm.jar", "beef", 7, Some("custom/asm.jar"))),
        classifiers: None,
    });
    let (path, d) = library_artifact_download(&lib).unwrap();
    assert_eq!(path, "custom/asm.jar");
    assert_eq!(d.url, "https://libraries.example/asm.jar");
    assert_eq!(d.sha1, "beef");
    assert_eq!(d.size, 7);

    lib.downloads = Some(LibraryDownloads {
        artifact: Some(info("https://libraries.example/asm.jar", "beef", 7, None)),
        classifiers: None,
    });
    let (path, _) = library_artifact_download(&lib).unwrap();
    assert_eq!(path, "org/ow2/asm/asm/9.5/asm-9.5.jar");
}

#[test]
fn temporary_download_names() {
    let base = data().join("instances").join("default").join("versions").join("1.20.1");
    assert_eq!(render(&part_path(&base.join("1.20.1.jar"), &linux())), render(&base.join("1.20.1.jar.part")));
    assert_eq!(render(&part_path(&base.join("index"), &linux())), render(&base.join("index.tmp.part")));
    assert_eq!(render(&part_path(&base.join(".hidden"), &linux())), render(&base.join(".hidden.tmp.part")));
    assert_eq!(render(&part_path(&base.join("a.tar.gz"), &linux())), render(&base.join("a.tar.gz.part")));
    // A component that names nested folders keeps them.
    assert_eq!(
        render(&part_path(&base.join("org/ow2/asm-9.5.jar"), &linux())),
        render(&base.join("org/ow2/asm-9.5.jar.part"))
    );
    assert_eq!(
        render(&part_path(&base.join("org\\ow2\\asm-9.5.jar"), &windows())),
        render(&base.join("org\\ow2\\asm-9.5.jar.part"))
    );
}

#[test]
fn file_names_and_extensions() {
    assert!(has_file_name("a/b.jar", &linux()));
    assert!(has_file_name("b.jar/", &linux()));
    assert!(!has_file_name("a/..", &linux()));
    assert!(!has_file_name("/", &linux()));
    assert!(!has_file_name("", &linux()));
    assert_eq!(with_extension("a/b.jar", &linux(), "zip"), "a/b.zip");
    assert_eq!(with_extension("a/b", &linux(), "zip"), "a/b.zip");
    assert_eq!(with_extension("a.b\\c", &windows(), "x"), "a.b\\c.x");
    assert_eq!(with_extension("a.b\\c", &linux(), "x"), "a.x");
}

#[test]
fn which_archive_entries_are_extracted() {
    let exclude = vec!["META-INF/".to_string(), "org/lwjgl/".to_string()];
    assert!(extract_entry("liblwjgl.so", &exclude));
    assert!(extract_entry("linux/x64/liblwjgl.so", &vec![]));
    assert!(!extract_entry("META-INF/MANIFEST.MF", &vec![]));
    assert!(!extract_entry("org/lwjgl/Version.class", &exclude));
    assert!(!extract_entry("linux/", &vec![]));
}

#[test]
fn client_jar() {
    let v = version_with(vec![], Some(info("https://example.invalid/client.jar", "cafe", 42, None)));
    let req = client_jar_request(&data(), &v).unwrap();
    assert_eq!(req.url, "https://example.invalid/client.jar");
    assert_eq!(
        render(&req.dest),
        "/home/p/.local/share/SegestriaLauncher/instances/default/versions/1.20.1/1.20.1.jar"
    );
    assert_eq!(req.sha1.as_deref(), Some("cafe"));
    assert_eq!(req.size, Some(42));

    let v = version_with(vec![], None);
    assert_eq!(
        client_jar_request(&data(), &v).unwrap_err(),
        Error::Other("1.20.1: no tiene downloads.client (¿instalaste Forge?)".to_string())
    );
}

#[test]
fn library_plan() {
    let mut objweb = library("org.ow2.asm:asm:9.5");
    objweb.downloads = Some(LibraryDownloads {
        artifact: Some(info("https://libraries.example/asm.jar", "beef", 7, Some("org/ow2/asm/asm/9.5/asm-9.5.jar"))),
        classifiers: None,
    });
    let mut old = library("net.minecraft:launchwrapper:1.12");
    old.url = Some("https://libraries.minecraft.net/".to_string());
    let mut mac_only = library("ca.weblite:java-objc-bridge:1.1");
    mac_only.url = Some("https://libraries.minecraft.net/".to_string());
    mac_only.rules = Some(vec![Rule {
        action: "allow".to_string(),
        os: Some(OsRule { name: Some("osx".to_string()), arch: None }),
        features: None,
    }]);
    let mut platform = library("org.lwjgl.lwjgl:lwjgl-platform:2.9.4");
    let mut natives = StrMap::new();
    natives.insert("linux".to_string(), "natives-linux".to_string());
    platform.natives = Some(natives);
    let mut classifiers = StrMap::new();
    classifiers.insert("natives-linux".to_string(), info("https://libraries.example/platform-linux.jar", "f00d", 5, None));
    platform.downloads = Some(LibraryDownloads { artifact: None, classifiers: Some(classifiers) });
    platform.extract = Some(ExtractRules { exclude: vec!["META-INF/".to_string()] });

    let v = version_with(vec![objweb, old, mac_only, platform], None);
    let plan = plan_libraries(&data(), &v, &linux());
    let libs = "/home/p/.local/share/SegestriaLauncher/instances/default/libraries";

    let classpath: Vec<String> = plan.classpath.iter().map(render).collect();
    assert_eq!(
        classpath,
        vec![
            format!("{libs}/org/ow2/asm/asm/9.5/asm-9.5.jar"),
            format!("{libs}/net/minecraft/launchwrapper/1.12/launchwrapper-1.12.jar"),
        ]
    );
    assert_eq!(plan.downloads.len(), 2);
    assert_eq!(plan.downloads[0].url, "https://libraries.example/asm.jar");
    assert_eq!(plan.downloads[0].sha1.as_deref(), Some("beef"));
    assert_eq!(plan.downloads[0].size, Some(7));
    assert_eq!(
        plan.downloads[1].url,
        "https://libraries.minecraft.net/net/minecraft/launchwrapper/1.12/launchwrapper-1.12.jar"
    );
    assert_eq!(plan.downloads[1].sha1, None);
    assert_eq!(plan.downloads[1].size, None);

    assert_eq!(plan.natives.len(), 1);
    let job = &plan.natives[0];
    assert_eq!(job.request.url, "https://libraries.example/platform-linux.jar");
    assert_eq!(
        render(&job.request.dest),
        format!("{libs}/org/lwjgl/lwjgl/lwjgl-platform/2.9.4/lwjgl-platform-2.9.4-natives-linux.jar")
    );
    assert_eq!(job.request.sha1.as_deref(), Some("f00d"));
    assert_eq!(job.request.size, Some(5));
    assert_eq!(job.exclude, vec!["META-INF/".to_string()]);

    // On Windows the platform library has no native for the system.
    let plan = plan_libraries(&data(), &v, &windows());
    assert!(plan.natives.is_empty());
    assert_eq!(plan.classpath.len(), 2);
}

#[test]
fn asset_requests() {
    let v = version_with(vec![], None);
    let idx = asset_index_request(&data(), &v);
    assert_eq!(idx.url, "https://example.invalid/indexes/5.json");
    assert_eq!(render(&idx.dest), "/home/p/.local/share/SegestriaLauncher/instances/default/assets/indexes/5.json");
    assert_eq!(idx.sha1.as_deref(), Some("feed"));
    assert_eq!(idx.size, Some(99));

    let obj = AssetObject { hash: "b62ca8ec10d07e6bf5ac8dae0c8c1d2e6a1e3356".to_string(), size: 1234 };
    let req = asset_object_request(&data(), &obj);
    assert_eq!(ASSET_BASE_URL, "https://resources.download.minecraft.net");
    assert_eq!(req.url, "https://resources.download.minecraft.net/b6/b62ca8ec10d07e6bf5ac8dae0c8c1d2e6a1e3356");
    assert_eq!(
        render(&req.dest),
        "/home/p/.local/share/SegestriaLauncher/instances/default/assets/objects/b6/b62ca8ec10d07e6bf5ac8dae0c8c1d2e6a1e3356"
    );
    assert_eq!(req.sha1.as_deref(), Some("b62ca8ec10d07e6bf5ac8dae0c8c1d2e6a1e3356"));
    assert_eq!(req.size, Some(1234));
}

#[test]
fn asset_progress() {
    assert!(asset_progress_due(25, 3000));
    assert!(!asset_progress_due(26, 3000));
    assert!(asset_progress_due(3000, 3000));
    assert!(asset_progress_due(7, 7));
    assert_eq!(asset_progress_message(25, 3000), "Assets: 25/3000");
    assert_eq!(asset_progress_message(0, 0), "Assets: 0/0");
}
