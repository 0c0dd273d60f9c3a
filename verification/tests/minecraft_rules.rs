use segestria_core::minecraft::rules::{
    current_arch, current_os_name, rule_matches, rules_allow, ArchKind, Host, OsKind, OsRule, Rule,
};
use segestria_core::minecraft::version_manifest::{
    resolve_args, ArgEntry, ArgValue, ConditionalArg, Library,
};
use segestria_core::strmap::StrMap;

fn host(os: OsKind, arch: ArchKind) -> Host {
    Host { os, arch, pointer_width_64: true }
}

fn linux() -> Host {
    host(OsKind::Linux, ArchKind::X86_64)
}

fn rule(action: &str, os: Option<&str>, arch: Option<&str>) -> Rule {
    let os = if os.is_none() && arch.is_none() {
        None
    } else {
        Some(OsRule { name: os.map(str::to_string), arch: arch.map(str::to_string) })
    };
    Rule { action: action.to_string(), os, features: None }
}

fn feature_rule(action: &str, key: &str, value: bool) -> Rule {
    let mut f = StrMap::new();
    f.insert(key.to_string(), value);
    Rule { action: action.to_string(), os: None, features: Some(f) }
}

fn no_features() -> StrMap<bool> {
    StrMap::new()
}

fn library(name: &str) -> Library {
    Library { name: name.to_string(), url: None, downloads: None, natives: None, rules: None, extract: None }
}

#[test]
fn os_and_arch_names() {
    assert_eq!(current_os_name(&host(OsKind::Windows, ArchKind::X86_64)), "windows");
    assert_eq!(current_os_name(&host(OsKind::Macos, ArchKind::Arm64)), "osx");
    assert_eq!(current_os_name(&linux()), "linux");
    assert_eq!(current_arch(&host(OsKind::Linux, ArchKind::X86_64)), "x86_64");
    assert_eq!(current_arch(&host(OsKind::Linux, ArchKind::X86)), "x86");
    assert_eq!(current_arch(&host(OsKind::Linux, ArchKind::Arm64)), "arm64");
    assert_eq!(current_arch(&host(OsKind::Linux, ArchKind::Unknown)), "unknown");
}

#[test]
fn no_rules_means_allowed() {
    assert!(rules_allow(&vec![], &no_features(), &linux()));
}

#[test]
fn rules_without_a_match_disallow() {
    let rules = vec![rule("allow", Some("windows"), None)];
    assert!(!rules_allow(&rules, &no_features(), &linux()));
    assert!(rules_allow(&rules, &no_features(), &host(OsKind::Windows, ArchKind::X86_64)));
}

#[test]
fn last_matching_rule_wins() {
    // The classic LWJGL pattern: allowed everywhere but macOS.
    let rules = vec![rule("allow", None, None), rule("disallow", Some("osx"), None)];
    assert!(rules_allow(&rules, &no_features(), &linux()));
    assert!(!rules_allow(&rules, &no_features(), &host(OsKind::Macos, ArchKind::Arm64)));
    // A later allow overrides an earlier disallow.
    let rules = vec![rule("disallow", None, None), rule("allow", Some("linux"), None)];
    assert!(rules_allow(&rules, &no_features(), &linux()));
    // Any action other than "allow" disallows.
    let rules = vec![rule("Allow", None, None)];
    assert!(!rules_allow(&rules, &no_features(), &linux()));
}

#[test]
fn arch_condition() {
    let r = rule("allow", None, Some("x86"));
    assert!(!rule_matches(&r, &no_features(), &linux()));
    assert!(rule_matches(&r, &no_features(), &host(OsKind::Windows, ArchKind::X86)));
    let r = rule("allow", Some("linux"), Some("arm64"));
    assert!(!rule_matches(&r, &no_features(), &linux()));
    assert!(rule_matches(&r, &no_features(), &host(OsKind::Linux, ArchKind::Arm64)));
}

#[test]
fn feature_conditions() {
    let r = feature_rule("allow", "is_demo_user", true);
    assert!(!rule_matches(&r, &no_features(), &linux()));
    let mut on = StrMap::new();
    on.insert("is_demo_user".to_string(), true);
    assert!(rule_matches(&r, &on, &linux()));
    // An absent feature counts as false.
    let r = feature_rule("allow", "has_custom_resolution", false);
    assert!(rule_matches(&r, &no_features(), &linux()));
    assert!(rules_allow(&vec![r], &no_features(), &linux()));
}

#[test]
fn resolve_args_keeps_order_and_applies_rules() {
    let mut quick = StrMap::new();
    quick.insert("is_quick_play_multiplayer".to_string(), true);
    let entries = vec![
        ArgEntry::Plain("--username".to_string()),
        ArgEntry::Plain("${auth_player_name}".to_string()),
        ArgEntry::Conditional(ConditionalArg {
            rules: vec![feature_rule("allow", "is_quick_play_multiplayer", true)],
            value: ArgValue::Multiple(vec!["--quickPlayMultiplayer".to_string(), "${quick_play_multiplayer}".to_string()]),
        }),
        ArgEntry::Conditional(ConditionalArg {
            rules: vec![rule("allow", Some("osx"), None)],
            value: ArgValue::Single("-XstartOnFirstThread".to_string()),
        }),
        ArgEntry::Conditional(ConditionalArg {
            rules: vec![rule("allow", Some("linux"), None)],
            value: ArgValue::Single("-Dlinux=1".to_string()),
        }),
    ];
    assert_eq!(
        resolve_args(&entries, &quick, &linux()),
        vec!["--username", "${auth_player_name}", "--quickPlayMultiplayer", "${quick_play_multiplayer}", "-Dlinux=1"]
    );
    assert_eq!(
        resolve_args(&entries, &no_features(), &host(OsKind::Macos, ArchKind::Arm64)),
        vec!["--username", "${auth_player_name}", "-XstartOnFirstThread"]
    );
    assert!(resolve_args(&vec![], &quick, &linux()).is_empty());
}

#[test]
fn coordinate_keys() {
    assert_eq!(library("org.lwjgl:lwjgl:3.3.1").coordinate_key(), "org.lwjgl:lwjgl");
    assert_eq!(library("org.lwjgl:lwjgl:3.3.1:natives-windows").coordinate_key(), "org.lwjgl:lwjgl:natives-windows");
    assert_eq!(library("org.ow2.asm:asm").coordinate_key(), "org.ow2.asm:asm");
    assert_eq!(library("plain").coordinate_key(), "plain");
    assert_eq!(library("").coordinate_key(), "");
}

#[test]
fn arch_suffixed_libraries() {
    let arm = library("org.lwjgl:lwjgl:3.3.1:natives-windows-arm64");
    let x86 = library("org.lwjgl:lwjgl:3.3.1:natives-windows-x86");
    let plain = library("org.lwjgl:lwjgl:3.3.1:natives-windows");
    let amd64 = host(OsKind::Windows, ArchKind::X86_64);
    let arm64 = host(OsKind::Windows, ArchKind::Arm64);
    let i386 = host(OsKind::Windows, ArchKind::X86);
    assert!(!arm.matches_current_arch(&amd64));
    assert!(arm.matches_current_arch(&arm64));
    assert!(!x86.matches_current_arch(&amd64));
    assert!(x86.matches_current_arch(&i386));
    assert!(plain.matches_current_arch(&amd64));
    assert!(plain.matches_current_arch(&arm64));
    assert!(!arm.is_allowed(&no_features(), &amd64));
    assert!(plain.is_allowed(&no_features(), &amd64));
}

#[test]
fn library_rules_decide_allowance() {
    let mut lib = library("ca.weblite:java-objc-bridge:1.1");
    lib.rules = Some(vec![rule("allow", Some("osx"), None)]);
    assert!(!lib.is_allowed(&no_features(), &linux()));
    assert!(lib.is_allowed(&no_features(), &host(OsKind::Macos, ArchKind::X86_64)));
}

#[test]
fn native_classifiers() {
    let mut lib = library("org.lwjgl.lwjgl:lwjgl-platform:2.9.4");
    assert_eq!(lib.native_classifier(&linux()), None);
    let mut natives = StrMap::new();
    natives.insert("linux".to_string(), "natives-linux".to_string());
    natives.insert("windows".to_string(), "natives-windows-${arch}".to_string());
    lib.natives = Some(natives);
    assert_eq!(lib.native_classifier(&linux()), Some("natives-linux".to_string()));
    let win64 = host(OsKind::Windows, ArchKind::X86_64);
    let win32 = Host { os: OsKind::Windows, arch: ArchKind::X86, pointer_width_64: false };
    assert_eq!(lib.native_classifier(&win64), Some("natives-windows-64".to_string()));
    assert_eq!(lib.native_classifier(&win32), Some("natives-windows-32".to_string()));
    assert_eq!(lib.native_classifier(&host(OsKind::Macos, ArchKind::Arm64)), None);
}

#[test]
fn coordinate_keys_across_part_counts() {
    assert_eq!(library("org.ow2.asm:asm:9.3").coordinate_key(), library("org.ow2.asm:asm:9.5").coordinate_key());
    assert_ne!(library("a:b:1").coordinate_key(), library("a:b:1:natives-linux").coordinate_key());
    assert_ne!(library("a:b:1:x").coordinate_key(), library("a:b:2:y").coordinate_key());
    assert_eq!(library("a:b:1:x").coordinate_key(), library("a:b:2:x:extra").coordinate_key());
}
