use segestria_core::forge::installer::{installer_run, CommandArg};
use segestria_core::minecraft::download::{
    has_asset_prefix, native_entries, native_files_of_jar, part_path, plan_is_defined, with_extension,
};
use segestria_core::minecraft::rules::{ArchKind, Host, OsKind};
use segestria_core::minecraft::version_manifest::Library;
use segestria_core::paths::FsPath;
use segestria_core::Error;
use std::io::Write;

fn linux() -> Host {
    Host { os: OsKind::Linux, arch: ArchKind::X86_64, pointer_width_64: true }
}

fn strings(v: &[&str]) -> Vec<String> {
    v.iter().map(|s| s.to_string()).collect()
}

fn jar(entries: &[(&str, &[u8])], dirs: &[&str]) -> Vec<u8> {
    let mut w = zip::ZipWriter::new(std::io::Cursor::new(Vec::new()));
    let opts = zip::write::SimpleFileOptions::default().compression_method(zip::CompressionMethod::Deflated);
    for d in dirs {
        w.add_directory(*d, opts).unwrap();
    }
    for (name, data) in entries {
        w.start_file(*name, opts).unwrap();
        w.write_all(data).unwrap();
    }
    w.finish().unwrap().into_inner()
}

fn library(name: &str) -> Library {
    Library { name: name.to_string(), url: None, downloads: None, natives: None, rules: None, extract: None }
}

#[test]
fn entries_to_unpack() {
    let names = strings(&["META-INF/MANIFEST.MF", "linux/x64/", "linux/x64/liblwjgl.so", "org/lwjgl/A.class", "libopenal.so"]);
    let plan = native_entries(&names, &strings(&["org/"]), &linux());
    assert_eq!(plan, vec![(2, "liblwjgl.so".to_string()), (4, "libopenal.so".to_string())]);
    assert!(native_entries(&vec![], &vec![], &linux()).is_empty());
}

#[test]
fn unpacking_a_native_jar() {
    let bytes = jar(
        &[("META-INF/MANIFEST.MF", b"Manifest-Version: 1.0\n"), ("linux/x64/liblwjgl.so", b"\x7fELF-lwjgl"), ("libglfw.so", b"glfw")],
        &["linux/"],
    );
    let files = native_files_of_jar(&bytes, "/d/lwjgl.jar", &vec![], &linux()).unwrap();
    assert_eq!(
        files,
        vec![("liblwjgl.so".to_string(), b"\x7fELF-lwjgl".to_vec()), ("libglfw.so".to_string(), b"glfw".to_vec())]
    );
    let files = native_files_of_jar(&bytes, "/d/lwjgl.jar", &strings(&["linux/"]), &linux()).unwrap();
    assert_eq!(files, vec![("libglfw.so".to_string(), b"glfw".to_vec())]);
}

#[test]
fn a_broken_jar_is_a_zip_error() {
    match native_files_of_jar(b"not a zip at all", "/d/broken.jar", &vec![], &linux()) {
        Err(Error::Zip { path, source }) => {
            assert_eq!(path, "/d/broken.jar");
            assert!(!source.is_empty());
        }
        other => panic!("unexpected {other:?}"),
    }
}

#[test]
fn plans_need_full_coordinates() {
    let mut short = library("org.example:thing");
    assert!(plan_is_defined(&vec![short], &linux()));
    short = library("org.example:thing");
    short.url = Some("https://maven.example/".to_string());
    assert!(!plan_is_defined(&vec![short], &linux()));
    let mut full = library("org.example:thing:1.0");
    full.url = Some("https://maven.example/".to_string());
    assert!(plan_is_defined(&vec![full], &linux()));
    assert!(plan_is_defined(&vec![], &linux()));
}

#[test]
fn asset_hash_prefixes() {
    assert!(has_asset_prefix("b62ca8ec10d07e6bf5ac8dae0c8c1d2e6a1e3356"));
    assert!(has_asset_prefix("ab"));
    assert!(!has_asset_prefix("a"));
    assert!(!has_asset_prefix(""));
    assert!(has_asset_prefix("ñx"));
    assert!(!has_asset_prefix("añ"));
    assert!(!has_asset_prefix("☃x"));
}

#[test]
fn extensions_without_a_file_name_or_with_an_empty_one() {
    assert_eq!(with_extension("a/..", &linux(), "x"), "a/..");
    assert_eq!(with_extension("/", &linux(), "x"), "/");
    assert_eq!(with_extension("a/b.jar", &linux(), ""), "a/b");
    assert_eq!(with_extension("a/b.jar/", &linux(), "zip"), "a/b.zip");
}

#[test]
fn temporary_path_edge_cases() {
    let up = FsPath::from_root("/d").join("a").join("..");
    let p = part_path(&up, &linux());
    assert_eq!(p, up);
    let bare = FsPath::from_root("/d/index.json");
    let p = part_path(&bare, &linux());
    assert_eq!(p.root, "/d/index.json.part");
    assert!(p.parts.is_empty());
}

#[test]
fn forge_installer_command() {
    let data = FsPath::from_root("/data").join("SegestriaLauncher");
    let run = installer_run(&data, "/usr/bin/java", "1.20.1", "47.2.0");
    assert_eq!(run.program, "/usr/bin/java");
    assert_eq!(run.args.len(), 4);
    assert!(matches!(&run.args[0], CommandArg::Text(t) if t == "-jar"));
    match &run.args[1] {
        CommandArg::Path(p) => {
            assert_eq!(p.root, "/data");
            assert_eq!(p.parts, vec!["SegestriaLauncher", "cache", "forge-1.20.1-47.2.0-installer.jar"]);
        }
        other => panic!("unexpected {other:?}"),
    }
    assert!(matches!(&run.args[2], CommandArg::Text(t) if t == "--installClient"));
    match &run.args[3] {
        CommandArg::Path(p) => assert_eq!(p.parts, vec!["SegestriaLauncher", "instances", "default"]),
        other => panic!("unexpected {other:?}"),
    }
    assert_eq!(run.current_dir.parts, vec!["SegestriaLauncher", "cache"]);
}
