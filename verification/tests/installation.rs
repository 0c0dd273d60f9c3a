use segestria_core::forge::installer::{
    forge_install_failure, forge_version_id, installed_version_id, installer_jar_path, new_version_dir,
};
use segestria_core::forge::{installer_url, resolve_forge_version};
use segestria_core::minecraft::java::{ensure_java, parse_major_version, JavaInstallation};
use segestria_core::mods::{is_wanted, mod_progress_message, mod_request, mods_to_remove, ModEntry, ModsManifest};
use segestria_core::paths::{
    assets_dir, cache_dir, data_dir, ensure_dirs, instance_dir, libraries_dir, mods_dir, natives_dir, settings_file,
    version_dir, version_jar_path, version_json_path, versions_dir, FsPath,
};
use segestria_core::progress::{forge_install_message, stage_message, Stage};
use segestria_core::strmap::StrMap;
use segestria_core::{Error, MC_VERSION, REQUIRED_JAVA_MAJOR};

fn strings(v: &[&str]) -> Vec<String> {
    v.iter().map(|s| s.to_string()).collect()
}

fn data() -> FsPath {
    data_dir(Some("/home/p/.local/share".to_string()), "/tmp".to_string())
}

fn render(p: &FsPath) -> String {
    let mut s = p.root.clone();
    for part in &p.parts {
        s.push('/');
        s.push_str(part);
    }
    s
}

#[test]
fn launcher_constants() {
    assert_eq!(MC_VERSION, "1.20.1");
    assert_eq!(REQUIRED_JAVA_MAJOR, 17);
}

#[test]
fn java_version_strings() {
    assert_eq!(parse_major_version("java version \"17.0.9\" 2023-10-17 LTS"), Some(17));
    assert_eq!(parse_major_version("openjdk version \"21.0.1\" 2023-10-17"), Some(21));
    assert_eq!(parse_major_version("java version \"1.8.0_381\""), Some(8));
    assert_eq!(parse_major_version("openjdk version \"22\""), Some(22));
    assert_eq!(parse_major_version("java version \"1\""), None);
    assert_eq!(parse_major_version("no quotes here"), None);
    assert_eq!(parse_major_version("java version \"abc.1\""), None);
    assert_eq!(parse_major_version("java version \"\""), None);
    assert_eq!(parse_major_version("unterminated \"17.0.2"), Some(17));
    assert_eq!(parse_major_version("\"99999999999.0\""), None);
}

#[test]
fn java_requirement() {
    let j17 = JavaInstallation { executable: "/usr/bin/java".to_string(), major_version: 17 };
    assert_eq!(ensure_java(Some(j17.clone()), 17).unwrap().executable, "/usr/bin/java");
    assert_eq!(ensure_java(Some(j17), 21).unwrap_err(), Error::JavaNotFound { required: 21 });
    assert_eq!(ensure_java(None, 17).unwrap_err(), Error::JavaNotFound { required: 17 });
}

#[test]
fn launcher_folders() {
    let d = data();
    assert_eq!(render(&d), "/home/p/.local/share/SegestriaLauncher");
    assert_eq!(render(&data_dir(None, "/tmp".to_string())), "/tmp/SegestriaLauncher");
    let base = "/home/p/.local/share/SegestriaLauncher";
    assert_eq!(render(&instance_dir(&d)), format!("{base}/instances/default"));
    assert_eq!(render(&versions_dir(&d)), format!("{base}/instances/default/versions"));
    assert_eq!(render(&libraries_dir(&d)), format!("{base}/instances/default/libraries"));
    assert_eq!(render(&assets_dir(&d)), format!("{base}/instances/default/assets"));
    assert_eq!(render(&mods_dir(&d)), format!("{base}/instances/default/mods"));
    assert_eq!(render(&natives_dir(&d, "1.20.1")), format!("{base}/natives/1.20.1"));
    assert_eq!(render(&cache_dir(&d)), format!("{base}/cache"));
    assert_eq!(render(&settings_file(&d)), format!("{base}/settings.json"));
    assert_eq!(render(&version_dir(&d, "1.20.1")), format!("{base}/instances/default/versions/1.20.1"));
    assert_eq!(render(&version_json_path(&d, "1.20.1")), format!("{base}/instances/default/versions/1.20.1/1.20.1.json"));
    assert_eq!(render(&version_jar_path(&d, "1.20.1")), format!("{base}/instances/default/versions/1.20.1/1.20.1.jar"));
    let dirs: Vec<String> = ensure_dirs(&d).iter().map(render).collect();
    assert_eq!(
        dirs,
        vec![
            base.to_string(),
            format!("{base}/instances/default"),
            format!("{base}/instances/default/versions"),
            format!("{base}/instances/default/libraries"),
            format!("{base}/instances/default/assets"),
            format!("{base}/instances/default/mods"),
            format!("{base}/cache"),
        ]
    );
}

#[test]
fn forge_build_selection() {
    let mut promos = StrMap::new();
    promos.insert("1.20.1-latest".to_string(), "47.2.20".to_string());
    promos.insert("1.20.1-recommended".to_string(), "47.2.0".to_string());
    promos.insert("1.19.2-latest".to_string(), "43.3.0".to_string());
    assert_eq!(resolve_forge_version(&promos, "1.20.1"), Ok("47.2.0".to_string()));
    assert_eq!(resolve_forge_version(&promos, "1.19.2"), Ok("43.3.0".to_string()));
    assert_eq!(resolve_forge_version(&promos, "1.7.10"), Err(Error::ForgeVersionNotFound("1.7.10".to_string())));
}

#[test]
fn forge_installer_locations() {
    assert_eq!(
        installer_url("1.20.1", "47.2.0"),
        "https://maven.minecraftforge.net/net/minecraftforge/forge/1.20.1-47.2.0/forge-1.20.1-47.2.0-installer.jar"
    );
    assert_eq!(forge_version_id("1.20.1", "47.2.0"), "1.20.1-forge-47.2.0");
    assert_eq!(
        render(&installer_jar_path(&data(), "1.20.1", "47.2.0")),
        "/home/p/.local/share/SegestriaLauncher/cache/forge-1.20.1-47.2.0-installer.jar"
    );
}

#[test]
fn forge_installer_failures() {
    assert_eq!(
        forge_install_failure(Some(1), "  out \n", "\n err  "),
        Error::ForgeInstallFailed { code: Some(1), details: "out\nerr".to_string() }
    );
    assert_eq!(
        forge_install_failure(None, "", " err "),
        Error::ForgeInstallFailed { code: None, details: "err".to_string() }
    );
    assert_eq!(
        forge_install_failure(Some(2), " out ", "   "),
        Error::ForgeInstallFailed { code: Some(2), details: "out".to_string() }
    );
    assert_eq!(
        forge_install_failure(Some(3), "", ""),
        Error::ForgeInstallFailed { code: Some(3), details: String::new() }
    );
}

#[test]
fn installed_forge_version() {
    let before = strings(&["1.20.1"]);
    let after = strings(&["1.20.1", "1.20.1-forge47.2.0", "zzz"]);
    assert_eq!(new_version_dir(&before, &after), Some("1.20.1-forge47.2.0".to_string()));
    assert_eq!(new_version_dir(&after, &before), None);
    assert_eq!(
        installed_version_id("1.20.1-forge-47.2.0", true, &before, &after, "/v.json"),
        Ok("1.20.1-forge-47.2.0".to_string())
    );
    assert_eq!(
        installed_version_id("1.20.1-forge-47.2.0", false, &before, &after, "/v.json"),
        Ok("1.20.1-forge47.2.0".to_string())
    );
    assert_eq!(
        installed_version_id("1.20.1-forge-47.2.0", false, &before, &before, "/v.json"),
        Err(Error::ForgeVersionJsonMissing("/v.json".to_string()))
    );
}

fn manifest() -> ModsManifest {
    let mut m = ModsManifest::empty("1.20.1", "forge");
    m.mods.push(ModEntry { filename: "jei.jar".to_string(), url: "https://cdn.example/jei.jar".to_string(), sha1: Some("aa".to_string()) });
    m.mods.push(ModEntry { filename: "journeymap.jar".to_string(), url: "https://cdn.example/jm.jar".to_string(), sha1: None });
    m
}

#[test]
fn empty_mods_manifest() {
    let m = ModsManifest::empty("1.20.1", "forge");
    assert_eq!(m.mc_version, "1.20.1");
    assert_eq!(m.loader, "forge");
    assert!(m.mods.is_empty());
}

#[test]
fn mods_folder_sync() {
    let m = manifest();
    assert!(is_wanted(&m, "jei.jar"));
    assert!(!is_wanted(&m, "JEI.jar"));
    let existing = strings(&["old.jar", "jei.jar", "notes.txt", "journeymap.jar"]);
    assert_eq!(mods_to_remove(&existing, &m), strings(&["old.jar", "notes.txt"]));
    assert!(mods_to_remove(&strings(&["jei.jar"]), &m).is_empty());
    assert_eq!(mods_to_remove(&strings(&["a.jar"]), &ModsManifest::empty("1.20.1", "forge")), strings(&["a.jar"]));

    let req = mod_request(&data(), &m.mods[0]);
    assert_eq!(req.url, "https://cdn.example/jei.jar");
    assert_eq!(render(&req.dest), "/home/p/.local/share/SegestriaLauncher/instances/default/mods/jei.jar");
    assert_eq!(req.sha1.as_deref(), Some("aa"));
    assert_eq!(req.size, None);
    assert_eq!(mod_request(&data(), &m.mods[1]).sha1, None);
    assert_eq!(mod_progress_message(1, 2, "jei.jar"), "Mods: 1/2 (jei.jar)");
}

#[test]
fn progress_messages() {
    assert_eq!(stage_message(Stage::CheckingJava), "Buscando Java...");
    assert_eq!(stage_message(Stage::DownloadingClient), "Descargando Minecraft...");
    assert_eq!(stage_message(Stage::DownloadingLibraries), "Descargando librerías...");
    assert_eq!(stage_message(Stage::DownloadingAssets), "Descargando assets (texturas, sonidos)...");
    assert_eq!(forge_install_message("47.2.0"), "Instalando Forge 47.2.0...");
}
