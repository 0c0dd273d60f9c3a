use segestria_core::minecraft::version_manifest::{
    find_version_url, merge_version, resolve_version, ArgEntry, Arguments, AssetIndexRef, DownloadInfo, Downloads,
    JavaVersionInfo, Library, RawVersionInfo, VersionManifest, VersionManifestEntry,
};
use segestria_core::Error;

fn library(name: &str) -> Library {
    Library { name: name.to_string(), url: None, downloads: None, natives: None, rules: None, extract: None }
}

fn index(id: &str) -> AssetIndexRef {
    AssetIndexRef { id: id.to_string(), url: format!("https://example.invalid/{id}.json"), sha1: "ab".to_string(), size: 10 }
}

fn plain(args: &[&str]) -> Vec<ArgEntry> {
    args.iter().map(|a| ArgEntry::Plain(a.to_string())).collect()
}

fn arg_texts(entries: &[ArgEntry]) -> Vec<String> {
    entries
        .iter()
        .map(|e| match e {
            ArgEntry::Plain(s) => s.clone(),
            ArgEntry::Conditional(_) => "<conditional>".to_string(),
        })
        .collect()
}

fn names(libs: &[Library]) -> Vec<String> {
    libs.iter().map(|l| l.name.clone()).collect()
}

fn vanilla() -> RawVersionInfo {
    RawVersionInfo {
        id: "1.20.1".to_string(),
        main_class: Some("net.minecraft.client.main.Main".to_string()),
        arguments: Some(Arguments { game: plain(&["--username", "${auth_player_name}"]), jvm: plain(&["-cp", "${classpath}"]) }),
        libraries: vec![
            library("org.ow2.asm:asm:9.3"),
            library("org.lwjgl:lwjgl:3.3.1"),
            library("org.lwjgl:lwjgl:3.3.1:natives-linux"),
        ],
        downloads: Some(Downloads {
            client: Some(DownloadInfo { url: "https://example.invalid/client.jar".to_string(), sha1: "cafe".to_string(), size: 42, path: None }),
        }),
        asset_index: Some(index("5")),
        assets: Some("5".to_string()),
        java_version: Some(JavaVersionInfo { major_version: 17 }),
        inherits_from: None,
    }
}

fn forge() -> RawVersionInfo {
    RawVersionInfo {
        id: "1.20.1-forge-47.2.0".to_string(),
        main_class: Some("cpw.mods.bootstraplauncher.BootstrapLauncher".to_string()),
        arguments: Some(Arguments { game: plain(&["--launchTarget", "forgeclient"]), jvm: plain(&["-DlibraryDirectory=${library_directory}"]) }),
        libraries: vec![library("org.ow2.asm:asm:9.5"), library("net.minecraftforge:forge:1.20.1-47.2.0")],
        downloads: None,
        asset_index: None,
        assets: None,
        java_version: None,
        inherits_from: Some("1.20.1".to_string()),
    }
}

#[test]
fn version_url_from_manifest() {
    let manifest = VersionManifest {
        versions: vec![
            VersionManifestEntry { id: "1.20.2".to_string(), url: "https://a/1.20.2.json".to_string() },
            VersionManifestEntry { id: "1.20.1".to_string(), url: "https://a/1.20.1.json".to_string() },
            VersionManifestEntry { id: "1.20.1".to_string(), url: "https://b/dup.json".to_string() },
        ],
    };
    assert_eq!(find_version_url(&manifest, "1.20.1"), Ok("https://a/1.20.1.json".to_string()));
    assert_eq!(find_version_url(&manifest, "1.7.10"), Err(Error::VersionNotFound("1.7.10".to_string())));
}

#[test]
fn resolve_plain_vanilla_version() {
    let r = resolve_version("1.20.1", vec![vanilla()]).unwrap();
    assert_eq!(r.id, "1.20.1");
    assert_eq!(r.main_class, "net.minecraft.client.main.Main");
    assert_eq!(arg_texts(&r.arguments.game), vec!["--username", "${auth_player_name}"]);
    assert_eq!(arg_texts(&r.arguments.jvm), vec!["-cp", "${classpath}"]);
    assert_eq!(names(&r.libraries), vec!["org.ow2.asm:asm:9.3", "org.lwjgl:lwjgl:3.3.1", "org.lwjgl:lwjgl:3.3.1:natives-linux"]);
    assert_eq!(r.client_download.as_ref().map(|d| d.url.clone()), Some("https://example.invalid/client.jar".to_string()));
    assert_eq!(r.asset_index.id, "5");
    assert_eq!(r.assets, "5");
    assert_eq!(r.java_major_version, 17);
}

#[test]
fn resolve_forge_over_vanilla() {
    let r = resolve_version("1.20.1-forge-47.2.0", vec![forge(), vanilla()]).unwrap();
    assert_eq!(r.id, "1.20.1-forge-47.2.0");
    assert_eq!(r.main_class, "cpw.mods.bootstraplauncher.BootstrapLauncher");
    // The parent's arguments first, then the child's.
    assert_eq!(arg_texts(&r.arguments.game), vec!["--username", "${auth_player_name}", "--launchTarget", "forgeclient"]);
    assert_eq!(arg_texts(&r.arguments.jvm), vec!["-cp", "${classpath}", "-DlibraryDirectory=${library_directory}"]);
    // The child's asm replaces the parent's and moves to the end; the native
    // variant of lwjgl stays beside the plain one.
    assert_eq!(
        names(&r.libraries),
        vec![
            "org.lwjgl:lwjgl:3.3.1",
            "org.lwjgl:lwjgl:3.3.1:natives-linux",
            "org.ow2.asm:asm:9.5",
            "net.minecraftforge:forge:1.20.1-47.2.0",
        ]
    );
    // Inherited from the parent.
    assert_eq!(r.client_download.as_ref().map(|d| d.size), Some(42));
    assert_eq!(r.asset_index.id, "5");
    assert_eq!(r.assets, "5");
    assert_eq!(r.java_major_version, 17);
}

#[test]
fn defaults_of_the_root_version() {
    let mut raw = vanilla();
    raw.assets = None;
    raw.java_version = None;
    raw.downloads = None;
    raw.arguments = None;
    let r = resolve_version("1.20.1", vec![raw]).unwrap();
    assert_eq!(r.assets, "5");
    assert_eq!(r.java_major_version, 17);
    assert!(r.client_download.is_none());
    assert!(r.arguments.game.is_empty());
    assert!(r.arguments.jvm.is_empty());
}

#[test]
fn root_without_main_class_fails() {
    let mut root = vanilla();
    root.main_class = None;
    assert_eq!(
        resolve_version("1.20.1-forge-47.2.0", vec![forge(), root]).unwrap_err(),
        Error::Other("1.20.1: falta mainClass".to_string())
    );
}

#[test]
fn root_without_asset_index_fails() {
    let mut root = vanilla();
    root.asset_index = None;
    assert_eq!(
        resolve_version("1.20.1", vec![root]).unwrap_err(),
        Error::Other("1.20.1: falta assetIndex".to_string())
    );
}

#[test]
fn child_values_win_over_parent() {
    let parent = resolve_version("1.20.1", vec![vanilla()]).unwrap();
    let mut child = forge();
    child.java_version = Some(JavaVersionInfo { major_version: 21 });
    child.assets = Some("legacy".to_string());
    child.asset_index = Some(index("legacy"));
    let r = merge_version("custom", child, Some(parent)).unwrap();
    assert_eq!(r.id, "custom");
    assert_eq!(r.java_major_version, 21);
    assert_eq!(r.assets, "legacy");
    assert_eq!(r.asset_index.id, "legacy");
}

#[test]
fn merge_without_parent_needs_main_class() {
    let mut raw = vanilla();
    raw.main_class = None;
    assert_eq!(merge_version("x", raw, None).unwrap_err(), Error::Other("x: falta mainClass".to_string()));
}

#[test]
fn overridden_libraries_occur_once() {
    let mut child = forge();
    child.libraries = vec![
        library("com.google.guava:guava:31.1"),
        library("org.ow2.asm:asm:9.4"),
        library("org.ow2.asm:asm:9.5"),
    ];
    let mut parent = vanilla();
    parent.libraries.push(library("com.google.guava:guava:21.0"));
    parent.libraries.push(library("org.ow2.asm:asm:9.1"));
    let r = resolve_version("1.20.1-forge-47.2.0", vec![child, parent]).unwrap();
    assert_eq!(
        names(&r.libraries),
        vec![
            "org.lwjgl:lwjgl:3.3.1",
            "org.lwjgl:lwjgl:3.3.1:natives-linux",
            "com.google.guava:guava:31.1",
            "org.ow2.asm:asm:9.5",
        ]
    );
}
