//! The command line that starts the game.
use super::rules::{feature_value, Host, OsKind};
use super::version_manifest::{resolve_args, spec_resolve_args, ResolvedVersion};
use crate::error::Error;
use crate::paths::{instance_dir, is_at, FsPath};
use crate::profile::{offline_uuid_bytes, offline_uuid, spec_hyphenated, suggested_ram_mb, Settings};
use crate::strmap::StrMap;
use crate::text::{
    concat2, concat3, decimal, is_blank, join, owned, replace_all, spec_decimal, spec_join, spec_replace,
    spec_split_whitespace, spec_trim, split_whitespace, trim, views,
};
use vstd::prelude::*;

verus! {

/// What the launch needs besides the version: the native libraries folder,
/// the libraries' jars (without the client jar, which is added last) and the
/// client jar, all as the application renders them.
#[derive(Debug)]
pub struct LaunchOptions {
    pub natives_dir: String,
    pub library_classpath: Vec<String>,
    pub client_jar: String,
}

/// Facts about the installation the command refers to, rendered by the
/// application: the launcher's version, the libraries folder, the game
/// folder (also the working directory) and the assets folder, and the host.
#[derive(Debug)]
pub struct LaunchContext {
    pub launcher_version: String,
    pub library_directory: String,
    pub game_directory: String,
    pub assets_root: String,
    pub host: Host,
}

/// A process to start: program, arguments, working directory.
#[derive(Debug)]
pub struct LaunchCommand {
    pub program: String,
    pub args: Vec<String>,
    pub current_dir: String,
}

/// Aikar's flags: the de facto G1GC tuning for long modded sessions.
pub open spec fn spec_aikar_flags() -> Seq<Seq<char>> {
    seq![
        "-XX:+UseG1GC"@,
        "-XX:+ParallelRefProcEnabled"@,
        "-XX:MaxGCPauseMillis=200"@,
        "-XX:+UnlockExperimentalVMOptions"@,
        "-XX:+DisableExplicitGC"@,
        "-XX:+AlwaysPreTouch"@,
        "-XX:G1NewSizePercent=30"@,
        "-XX:G1MaxNewSizePercent=40"@,
        "-XX:G1HeapRegionSize=8M"@,
        "-XX:G1ReservePercent=20"@,
        "-XX:G1HeapWastePercent=5"@,
        "-XX:G1MixedGCCountTarget=4"@,
        "-XX:InitiatingHeapOccupancyPercent=15"@,
        "-XX:G1MixedGCLiveThresholdPercent=90"@,
        "-XX:G1RSetUpdatingPauseTimePercent=5"@,
        "-XX:SurvivorRatio=32"@,
        "-XX:+PerfDisableSharedMem"@,
        "-XX:MaxTenuringThreshold=1"@,
    ]
}

pub fn aikar_flags() -> (v: Vec<String>)
    ensures
        views(v@) == spec_aikar_flags(),
{
    let mut v: Vec<String> = Vec::new();
    v.push(owned("-XX:+UseG1GC"));
    v.push(owned("-XX:+ParallelRefProcEnabled"));
    v.push(owned("-XX:MaxGCPauseMillis=200"));
    v.push(owned("-XX:+UnlockExperimentalVMOptions"));
    v.push(owned("-XX:+DisableExplicitGC"));
    v.push(owned("-XX:+AlwaysPreTouch"));
    v.push(owned("-XX:G1NewSizePercent=30"));
    v.push(owned("-XX:G1MaxNewSizePercent=40"));
    v.push(owned("-XX:G1HeapRegionSize=8M"));
    v.push(owned("-XX:G1ReservePercent=20"));
    v.push(owned("-XX:G1HeapWastePercent=5"));
    v.push(owned("-XX:G1MixedGCCountTarget=4"));
    v.push(owned("-XX:InitiatingHeapOccupancyPercent=15"));
    v.push(owned("-XX:G1MixedGCLiveThresholdPercent=90"));
    v.push(owned("-XX:G1RSetUpdatingPauseTimePercent=5"));
    v.push(owned("-XX:SurvivorRatio=32"));
    v.push(owned("-XX:+PerfDisableSharedMem"));
    v.push(owned("-XX:MaxTenuringThreshold=1"));
    assert(views(v@) =~= spec_aikar_flags());
    v
}

/// Memory flags for `ram_mb`, Aikar's flags, then the player's own flags
/// split on whitespace.
pub open spec fn spec_jvm_args_for_ram(ram_mb: u32, extra: Seq<char>) -> Seq<Seq<char>> {
    seq!["-Xms"@ + spec_decimal(ram_mb as nat) + "M"@, "-Xmx"@ + spec_decimal(ram_mb as nat) + "M"@]
        + spec_aikar_flags() + if spec_trim(extra).len() == 0 {
        Seq::<Seq<char>>::empty()
    } else {
        spec_split_whitespace(extra)
    }
}

fn append_strings(a: &mut Vec<String>, b: Vec<String>)
    ensures
        views(final(a)@) == views(old(a)@) + views(b@),
{
    let ghost b0 = b@;
    let mut b = b;
    a.append(&mut b);
    assert(views(a@) =~= views(old(a)@) + views(b0));
}

/// An argument without a `$` needs no values: substitution leaves it as it is.
pub proof fn lemma_substitute_without_placeholders(
    template: Seq<char>,
    values: Seq<(Seq<char>, Seq<char>)>,
)
    requires
        !template.contains('$'),
    ensures
        spec_substitute(template, values) == template,
    decreases values.len(),
{
    if values.len() > 0 {
        lemma_substitute_without_placeholders(template, values.drop_last());
        let (k, v) = values.last();
        let pat = "${"@ + k + "}"@;
        reveal_strlit("${");
        assert(pat[0] == '$');
        assert forall|i: int| 0 <= i <= template.len() implies !crate::text::spec_starts_with(
            #[trigger] template.skip(i),
            pat,
        ) by {
            if crate::text::spec_starts_with(template.skip(i), pat) {
                assert(template.skip(i).take(pat.len() as int)[0] == pat[0]);
                assert(template[i] == '$');
            }
        }
        crate::text::lemma_replace_absent(template, pat, v);
    }
}

/// The performance flags for a given amount of RAM.
pub fn jvm_args_for_ram(ram_mb: u32, settings: &Settings) -> (args: Vec<String>)
    ensures
        views(args@) == spec_jvm_args_for_ram(ram_mb, settings.extra_jvm_args@),
{
    let ram = decimal(ram_mb as u64);
    let mut args: Vec<String> = Vec::new();
    args.push(concat3("-Xms", ram.as_str(), "M"));
    args.push(concat3("-Xmx", ram.as_str(), "M"));
    append_strings(&mut args, aikar_flags());
    if !is_blank(settings.extra_jvm_args.as_str()) {
        append_strings(&mut args, split_whitespace(settings.extra_jvm_args.as_str()));
    }
    proof {
        assert(views(args@) =~= spec_jvm_args_for_ram(ram_mb, settings.extra_jvm_args@));
    }
    args
}

/// The performance flags: the player's RAM, or the amount suggested for this
/// machine (which lies between 2048 and 8192 MiB).
pub fn performance_jvm_args(settings: &Settings) -> (args: Vec<String>)
    ensures
        match settings.allocated_ram_mb {
            Some(r) => views(args@) == spec_jvm_args_for_ram(r, settings.extra_jvm_args@),
            None => exists|r: u32|
                2048 <= r <= 8192 && views(args@) == #[trigger] spec_jvm_args_for_ram(
                    r,
                    settings.extra_jvm_args@,
                ),
        },
{
    let ram = match settings.allocated_ram_mb {
        Some(r) => r,
        None => suggested_ram_mb(),
    };
    jvm_args_for_ram(ram, settings)
}

/// The classpath separator: ";" on Windows, ":" elsewhere.
pub open spec fn spec_classpath_separator(host: Host) -> Seq<char> {
    if host.os == OsKind::Windows {
        ";"@
    } else {
        ":"@
    }
}

fn classpath_separator(host: &Host) -> (s: &'static str)
    ensures
        s@ == spec_classpath_separator(*host),
{
    if host.os == OsKind::Windows {
        ";"
    } else {
        ":"
    }
}

/// The paths joined with the platform's classpath separator.
pub fn classpath_string(paths: &Vec<String>, host: &Host) -> (s: String)
    ensures
        s@ == spec_join(views(paths@), spec_classpath_separator(*host)),
{
    join(paths, classpath_separator(host))
}

/// `pair_views` of placeholder values.
pub open spec fn value_views(v: Seq<(String, String)>) -> Seq<(Seq<char>, Seq<char>)> {
    v.map_values(|p: (String, String)| (p.0@, p.1@))
}

/// Every `${key}` replaced by its value, one key after another in order.
pub open spec fn spec_substitute(template: Seq<char>, values: Seq<(Seq<char>, Seq<char>)>) -> Seq<char>
    decreases values.len(),
{
    if values.len() == 0 {
        template
    } else {
        let (k, v) = values.last();
        spec_replace(spec_substitute(template, values.drop_last()), "${"@ + k + "}"@, v)
    }
}

/// Replaces the `${key}` placeholders of `template` with their values.
pub fn substitute(template: &str, values: &Vec<(String, String)>) -> (out: String)
    ensures
        out@ == spec_substitute(template@, value_views(values@)),
{
    let mut out = owned(template);
    let mut i: usize = 0;
    assert(value_views(values@).take(0) =~= Seq::<(Seq<char>, Seq<char>)>::empty());
    while i < values.len()
        invariant
            i <= values.len(),
            out@ == spec_substitute(template@, value_views(values@).take(i as int)),
        decreases values.len() - i,
    {
        let pattern = concat3("${", values[i].0.as_str(), "}");
        proof {
            reveal_strlit("${");
            assert(value_views(values@).take(i + 1).drop_last() =~= value_views(values@).take(i as int));
            assert(value_views(values@).take(i + 1).last() == (values@[i as int].0@, values@[i as int].1@));
        }
        out = replace_all(out.as_str(), pattern.as_str(), values[i].1.as_str());
        i += 1;
    }
    assert(value_views(values@).take(values.len() as int) =~= value_views(values@));
    out
}

/// The placeholder values of the version files, in the order they are applied.
pub open spec fn spec_placeholders(
    version: ResolvedVersion,
    opts: LaunchOptions,
    settings: Settings,
    connect_to_server: bool,
    ctx: LaunchContext,
) -> Seq<(Seq<char>, Seq<char>)> {
    let base = seq![
        ("natives_directory"@, opts.natives_dir@),
        ("launcher_name"@, "SegestriaLauncher"@),
        ("launcher_version"@, ctx.launcher_version@),
        ("classpath"@, spec_join(views(opts.library_classpath@).push(opts.client_jar@), spec_classpath_separator(ctx.host))),
        ("library_directory"@, ctx.library_directory@),
        ("classpath_separator"@, spec_classpath_separator(ctx.host)),
        ("auth_player_name"@, settings.username@),
        ("version_name"@, version.id@),
        ("game_directory"@, ctx.game_directory@),
        ("assets_root"@, ctx.assets_root@),
        ("assets_index_name"@, version.assets@),
        ("auth_uuid"@, spec_hyphenated(offline_uuid_bytes(settings.username@))),
        ("auth_access_token"@, "0"@),
        ("clientid"@, "0"@),
        ("auth_xuid"@, "0"@),
        ("user_type"@, "legacy"@),
        ("version_type"@, "release"@),
    ];
    if connect_to_server {
        base.push(
            (
                "quick_play_multiplayer"@,
                spec_trim(settings.server_ip@) + ":"@ + spec_decimal(settings.server_port as nat),
            ),
        )
    } else {
        base
    }
}

fn pair(k: &str, v: String) -> (p: (String, String))
    ensures
        p.0@ == k@,
        p.1@ == v@,
{
    (owned(k), v)
}

/// The values of the `${...}` placeholders of the version files: paths,
/// launcher identity, the offline account, and the server to join straight
/// away when there is one.
pub fn build_placeholder_values(
    version: &ResolvedVersion,
    opts: &LaunchOptions,
    settings: &Settings,
    connect_to_server: bool,
    ctx: &LaunchContext,
) -> (values: Vec<(String, String)>)
    ensures
        value_views(values@) == spec_placeholders(*version, *opts, *settings, connect_to_server, *ctx),
{
    let mut classpath: Vec<String> = Vec::new();
    crate::text::push_all_cloned(&mut classpath, &opts.library_classpath);
    classpath.push(opts.client_jar.clone());
    proof {
        assert(views(classpath@) =~= views(opts.library_classpath@).push(opts.client_jar@));
    }
    let mut values: Vec<(String, String)> = Vec::new();
    values.push(pair("natives_directory", opts.natives_dir.clone()));
    values.push(pair("launcher_name", owned("SegestriaLauncher")));
    values.push(pair("launcher_version", ctx.launcher_version.clone()));
    values.push(pair("classpath", classpath_string(&classpath, &ctx.host)));
    values.push(pair("library_directory", ctx.library_directory.clone()));
    values.push(pair("classpath_separator", owned(classpath_separator(&ctx.host))));
    values.push(pair("auth_player_name", settings.username.clone()));
    values.push(pair("version_name", version.id.clone()));
    values.push(pair("game_directory", ctx.game_directory.clone()));
    values.push(pair("assets_root", ctx.assets_root.clone()));
    values.push(pair("assets_index_name", version.assets.clone()));
    values.push(pair("auth_uuid", offline_uuid(settings.username.as_str()).to_hyphenated_string()));
    values.push(pair("auth_access_token", owned("0")));
    values.push(pair("clientid", owned("0")));
    values.push(pair("auth_xuid", owned("0")));
    values.push(pair("user_type", owned("legacy")));
    values.push(pair("version_type", owned("release")));
    if connect_to_server {
        let ip = trim(settings.server_ip.as_str());
        let port = decimal(settings.server_port as u64);
        values.push(pair("quick_play_multiplayer", concat3(ip.as_str(), ":", port.as_str())));
    }
    assert(value_views(values@) =~= spec_placeholders(*version, *opts, *settings, connect_to_server, *ctx));
    values
}

fn substitute_all(args: Vec<String>, values: &Vec<(String, String)>) -> (out: Vec<String>)
    ensures
        views(out@) == views(args@).map_values(|a: Seq<char>| spec_substitute(a, value_views(values@))),
{
    let mut out: Vec<String> = Vec::new();
    let mut i: usize = 0;
    while i < args.len()
        invariant
            i <= args.len(),
            views(out@) == views(args@).take(i as int).map_values(
                |a: Seq<char>| spec_substitute(a, value_views(values@)),
            ),
        decreases args.len() - i,
    {
        let s = substitute(args[i].as_str(), values);
        let ghost prev = out@;
        out.push(s);
        proof {
            assert(out@ =~= prev.push(s));
            assert(views(out@) =~= views(prev).push(s@));
            assert(views(args@).take(i + 1) =~= views(args@).take(i as int).push(args@[i as int]@));
        }
        i += 1;
        assert(views(out@) =~= views(args@).take(i as int).map_values(
            |a: Seq<char>| spec_substitute(a, value_views(values@)),
        ));
    }
    assert(views(args@).take(args.len() as int) =~= views(args@));
    out
}

/// The feature flags of a launch: whether the game joins the server at once.
pub open spec fn launch_features(connect_to_server: bool) -> Map<Seq<char>, bool> {
    Map::<Seq<char>, bool>::empty().insert("is_quick_play_multiplayer"@, connect_to_server)
}

/// The game's command line after the performance flags: the version's JVM
/// arguments, the main class, then its game arguments, rules evaluated and
/// placeholders filled.
pub open spec fn spec_version_args(
    version: ResolvedVersion,
    connect_to_server: bool,
    values: Seq<(Seq<char>, Seq<char>)>,
    host: Host,
) -> Seq<Seq<char>> {
    let subst = |a: Seq<char>| spec_substitute(a, values);
    spec_resolve_args(version.arguments.jvm@, launch_features(connect_to_server), host).map_values(subst)
        + seq![version.main_class@] + spec_resolve_args(
        version.arguments.game@,
        launch_features(connect_to_server),
        host,
    ).map_values(subst)
}

/// Builds the game's command (without starting it): Java, run in the game
/// folder, with the performance flags, the version's JVM arguments, the main
/// class and the game arguments. The game joins the server at once when a
/// server address is set.
pub fn build_command(
    version: &ResolvedVersion,
    java_exe: &str,
    opts: &LaunchOptions,
    settings: &Settings,
    ctx: &LaunchContext,
) -> (r: Result<LaunchCommand, Error>)
    ensures
        r matches Ok(cmd) && cmd.program@ == java_exe@ && cmd.current_dir@ == ctx.game_directory@ && ({
            let connect = spec_trim(settings.server_ip@).len() != 0;
            let values = spec_placeholders(*version, *opts, *settings, connect, *ctx);
            let tail = spec_version_args(*version, connect, values, ctx.host);
            match settings.allocated_ram_mb {
                Some(ram) => views(cmd.args@) == spec_jvm_args_for_ram(ram, settings.extra_jvm_args@) + tail,
                None => exists|ram: u32|
                    2048 <= ram <= 8192 && views(cmd.args@) == #[trigger] spec_jvm_args_for_ram(
                        ram,
                        settings.extra_jvm_args@,
                    ) + tail,
            }
        }),
{
    let connect_to_server = !is_blank(settings.server_ip.as_str());
    let mut features: StrMap<bool> = StrMap::new();
    features.insert(owned("is_quick_play_multiplayer"), connect_to_server);
    let values = build_placeholder_values(version, opts, settings, connect_to_server, ctx);
    assert(features@ =~= launch_features(connect_to_server));
    let jvm_raw = resolve_args(&version.arguments.jvm, &features, &ctx.host);
    let game_raw = resolve_args(&version.arguments.game, &features, &ctx.host);
    let jvm_args = substitute_all(jvm_raw, &values);
    let game_args = substitute_all(game_raw, &values);
    let mut args = performance_jvm_args(settings);
    let ghost perf = views(args@);
    append_strings(&mut args, jvm_args);
    let ghost a1 = views(args@);
    args.push(version.main_class.clone());
    proof {
        assert(views(args@) =~= a1.push(version.main_class@));
    }
    append_strings(&mut args, game_args);
    proof {
        let tail = spec_version_args(
            *version,
            connect_to_server,
            spec_placeholders(*version, *opts, *settings, connect_to_server, *ctx),
            ctx.host,
        );
        assert(views(args@) =~= perf + tail);
    }
    Ok(LaunchCommand { program: owned(java_exe), args, current_dir: ctx.game_directory.clone() })
}

/// Where the game's output goes: `logs/segestria-latest.log` in the instance.
pub fn latest_log_path(data_dir: &FsPath) -> (p: FsPath)
    ensures
        is_at(p, *data_dir, seq!["instances"@, "default"@, "logs"@, "segestria-latest.log"@]),
{
    let p = instance_dir(data_dir).join("logs").join("segestria-latest.log");
    assert(p.comps() =~= data_dir.comps() + seq![
        "instances"@,
        "default"@,
        "logs"@,
        "segestria-latest.log"@,
    ]);
    p
}

/// The value of the first entry with `key`: the one substitution uses,
/// since later entries with the same key find nothing left to replace.
pub open spec fn placeholder_value(values: Seq<(Seq<char>, Seq<char>)>, key: Seq<char>) -> Option<Seq<char>>
    decreases values.len(),
{
    if values.len() == 0 {
        None
    } else if values[0].0 == key {
        Some(values[0].1)
    } else {
        placeholder_value(values.drop_first(), key)
    }
}

/// The launch knows one feature only: whether it joins a server straight
/// away. Every other feature (such as `is_demo_user`) is off, so no argument
/// guarded by one appears on the command line.
pub proof fn lemma_launch_features(connect_to_server: bool, key: Seq<char>)
    ensures
        feature_value(launch_features(connect_to_server), key) == (key == "is_quick_play_multiplayer"@
            && connect_to_server),
{
}

/// The value found for `key` is that of entry `k` when `k` is the first
/// entry with that key.
proof fn lemma_value_at(values: Seq<(Seq<char>, Seq<char>)>, k: int, key: Seq<char>)
    requires
        0 <= k < values.len(),
        values[k].0 == key,
        forall|j: int| 0 <= j < k ==> (#[trigger] values[j]).0 != key,
    ensures
        placeholder_value(values, key) == Some(values[k].1),
    decreases k,
{
    if k > 0 {
        assert forall|j: int| 0 <= j < k - 1 implies (#[trigger] values.drop_first()[j]).0 != key by {
            assert(values.drop_first()[j] == values[j + 1]);
        }
        lemma_value_at(values.drop_first(), k - 1, key);
        assert(values[0].0 != key);
    }
}

/// No entry has the key: nothing is found.
proof fn lemma_value_absent(values: Seq<(Seq<char>, Seq<char>)>, key: Seq<char>)
    requires
        forall|j: int| 0 <= j < values.len() ==> (#[trigger] values[j]).0 != key,
    ensures
        placeholder_value(values, key) is None,
    decreases values.len(),
{
    if values.len() > 0 {
        assert(values[0].0 != key);
        assert forall|j: int| 0 <= j < values.len() - 1 implies (#[trigger] values.drop_first()[j]).0 != key by {
            assert(values.drop_first()[j] == values[j + 1]);
        }
        lemma_value_absent(values.drop_first(), key);
    }
}

/// What each placeholder stands for: the folders and files the launch was
/// given, the classpath joined with the host's separator (";" on Windows,
/// ":" elsewhere) and that separator itself, the version's own id and asset
/// index, the offline account, fixed launcher and account values, and the
/// server to join when there is one; one entry per placeholder and no other.
#[verifier::rlimit(60)]
pub proof fn lemma_placeholder_values(
    version: ResolvedVersion,
    opts: LaunchOptions,
    settings: Settings,
    connect_to_server: bool,
    ctx: LaunchContext,
)
    ensures
        placeholder_value(spec_placeholders(version, opts, settings, connect_to_server, ctx), "natives_directory"@) == Some(opts.natives_dir@),
        placeholder_value(spec_placeholders(version, opts, settings, connect_to_server, ctx), "launcher_name"@) == Some("SegestriaLauncher"@),
        placeholder_value(spec_placeholders(version, opts, settings, connect_to_server, ctx), "launcher_version"@) == Some(ctx.launcher_version@),
        placeholder_value(spec_placeholders(version, opts, settings, connect_to_server, ctx), "classpath"@) == Some(spec_join(views(opts.library_classpath@).push(opts.client_jar@), if ctx.host.os == OsKind::Windows {
            ";"@
        } else {
            ":"@
        })),
        placeholder_value(spec_placeholders(version, opts, settings, connect_to_server, ctx), "library_directory"@) == Some(ctx.library_directory@),
        placeholder_value(spec_placeholders(version, opts, settings, connect_to_server, ctx), "classpath_separator"@) == Some(if ctx.host.os == OsKind::Windows {
            ";"@
        } else {
            ":"@
        }),
        placeholder_value(spec_placeholders(version, opts, settings, connect_to_server, ctx), "auth_player_name"@) == Some(settings.username@),
        placeholder_value(spec_placeholders(version, opts, settings, connect_to_server, ctx), "version_name"@) == Some(version.id@),
        placeholder_value(spec_placeholders(version, opts, settings, connect_to_server, ctx), "game_directory"@) == Some(ctx.game_directory@),
        placeholder_value(spec_placeholders(version, opts, settings, connect_to_server, ctx), "assets_root"@) == Some(ctx.assets_root@),
        placeholder_value(spec_placeholders(version, opts, settings, connect_to_server, ctx), "assets_index_name"@) == Some(version.assets@),
        placeholder_value(spec_placeholders(version, opts, settings, connect_to_server, ctx), "auth_uuid"@) == Some(spec_hyphenated(offline_uuid_bytes(settings.username@))),
        placeholder_value(spec_placeholders(version, opts, settings, connect_to_server, ctx), "auth_access_token"@) == Some("0"@),
        placeholder_value(spec_placeholders(version, opts, settings, connect_to_server, ctx), "clientid"@) == Some("0"@),
        placeholder_value(spec_placeholders(version, opts, settings, connect_to_server, ctx), "auth_xuid"@) == Some("0"@),
        placeholder_value(spec_placeholders(version, opts, settings, connect_to_server, ctx), "user_type"@) == Some("legacy"@),
        placeholder_value(spec_placeholders(version, opts, settings, connect_to_server, ctx), "version_type"@) == Some("release"@),
        connect_to_server ==> placeholder_value(spec_placeholders(version, opts, settings, connect_to_server, ctx), "quick_play_multiplayer"@) == Some(
            spec_trim(settings.server_ip@) + ":"@ + spec_decimal(settings.server_port as nat),
        ),
        !connect_to_server ==> placeholder_value(spec_placeholders(version, opts, settings, connect_to_server, ctx), "quick_play_multiplayer"@) is None,
        spec_placeholders(version, opts, settings, connect_to_server, ctx).len() == if connect_to_server {
            18int
        } else {
            17int
        },
{
    reveal_strlit("natives_directory");
    reveal_strlit("launcher_name");
    reveal_strlit("launcher_version");
    reveal_strlit("classpath");
    reveal_strlit("library_directory");
    reveal_strlit("classpath_separator");
    reveal_strlit("auth_player_name");
    reveal_strlit("version_name");
    reveal_strlit("game_directory");
    reveal_strlit("assets_root");
    reveal_strlit("assets_index_name");
    reveal_strlit("auth_uuid");
    reveal_strlit("auth_access_token");
    reveal_strlit("clientid");
    reveal_strlit("auth_xuid");
    reveal_strlit("user_type");
    reveal_strlit("version_type");
    reveal_strlit("quick_play_multiplayer");
    reveal_strlit(";");
    reveal_strlit(":");
    let p = spec_placeholders(version, opts, settings, connect_to_server, ctx);
    assert(spec_classpath_separator(ctx.host) == if ctx.host.os == OsKind::Windows {
        ";"@
    } else {
        ":"@
    });
    lemma_value_at(p, 0, "natives_directory"@);
    assert forall|j: int| 0 <= j < 1 implies (#[trigger] p[j]).0 != "launcher_name"@ by {
        if j == 0 {
            assert("natives_directory"@.len() != "launcher_name"@.len());
        }
    }
    lemma_value_at(p, 1, "launcher_name"@);
    assert forall|j: int| 0 <= j < 2 implies (#[trigger] p[j]).0 != "launcher_version"@ by {
        if j == 0 {
            assert("natives_directory"@.len() != "launcher_version"@.len());
        }
        if j == 1 {
            assert("launcher_name"@.len() != "launcher_version"@.len());
        }
    }
    lemma_value_at(p, 2, "launcher_version"@);
    assert forall|j: int| 0 <= j < 3 implies (#[trigger] p[j]).0 != "classpath"@ by {
        if j == 0 {
            assert("natives_directory"@.len() != "classpath"@.len());
        }
        if j == 1 {
            assert("launcher_name"@.len() != "classpath"@.len());
        }
        if j == 2 {
            assert("launcher_version"@.len() != "classpath"@.len());
        }
    }
    lemma_value_at(p, 3, "classpath"@);
    assert forall|j: int| 0 <= j < 4 implies (#[trigger] p[j]).0 != "library_directory"@ by {
        if j == 0 {
            assert("natives_directory"@[0] != "library_directory"@[0]);
        }
        if j == 1 {
            assert("launcher_name"@.len() != "library_directory"@.len());
        }
        if j == 2 {
            assert("launcher_version"@.len() != "library_directory"@.len());
        }
        if j == 3 {
            assert("classpath"@.len() != "library_directory"@.len());
        }
    }
    lemma_value_at(p, 4, "library_directory"@);
    assert forall|j: int| 0 <= j < 5 implies (#[trigger] p[j]).0 != "classpath_separator"@ by {
        if j == 0 {
            assert("natives_directory"@.len() != "classpath_separator"@.len());
        }
        if j == 1 {
            assert("launcher_name"@.len() != "classpath_separator"@.len());
        }
        if j == 2 {
            assert("launcher_version"@.len() != "classpath_separator"@.len());
        }
        if j == 3 {
            assert("classpath"@.len() != "classpath_separator"@.len());
        }
        if j == 4 {
            assert("library_directory"@.len() != "classpath_separator"@.len());
        }
    }
    lemma_value_at(p, 5, "classpath_separator"@);
    assert forall|j: int| 0 <= j < 6 implies (#[trigger] p[j]).0 != "auth_player_name"@ by {
        if j == 0 {
            assert("natives_directory"@.len() != "auth_player_name"@.len());
        }
        if j == 1 {
            assert("launcher_name"@.len() != "auth_player_name"@.len());
        }
        if j == 2 {
            assert("launcher_version"@[0] != "auth_player_name"@[0]);
        }
        if j == 3 {
            assert("classpath"@.len() != "auth_player_name"@.len());
        }
        if j == 4 {
            assert("library_directory"@.len() != "auth_player_name"@.len());
        }
        if j == 5 {
            assert("classpath_separator"@.len() != "auth_player_name"@.len());
        }
    }
    lemma_value_at(p, 6, "auth_player_name"@);
    assert forall|j: int| 0 <= j < 7 implies (#[trigger] p[j]).0 != "version_name"@ by {
        if j == 0 {
            assert("natives_directory"@.len() != "version_name"@.len());
        }
        if j == 1 {
            assert("launcher_name"@.len() != "version_name"@.len());
        }
        if j == 2 {
            assert("launcher_version"@.len() != "version_name"@.len());
        }
        if j == 3 {
            assert("classpath"@.len() != "version_name"@.len());
        }
        if j == 4 {
            assert("library_directory"@.len() != "version_name"@.len());
        }
        if j == 5 {
            assert("classpath_separator"@.len() != "version_name"@.len());
        }
        if j == 6 {
            assert("auth_player_name"@.len() != "version_name"@.len());
        }
    }
    lemma_value_at(p, 7, "version_name"@);
    assert forall|j: int| 0 <= j < 8 implies (#[trigger] p[j]).0 != "game_directory"@ by {
        if j == 0 {
            assert("natives_directory"@.len() != "game_directory"@.len());
        }
        if j == 1 {
            assert("launcher_name"@.len() != "game_directory"@.len());
        }
        if j == 2 {
            assert("launcher_version"@.len() != "game_directory"@.len());
        }
        if j == 3 {
            assert("classpath"@.len() != "game_directory"@.len());
        }
        if j == 4 {
            assert("library_directory"@.len() != "game_directory"@.len());
        }
        if j == 5 {
            assert("classpath_separator"@.len() != "game_directory"@.len());
        }
        if j == 6 {
            assert("auth_player_name"@.len() != "game_directory"@.len());
        }
        if j == 7 {
            assert("version_name"@.len() != "game_directory"@.len());
        }
    }
    lemma_value_at(p, 8, "game_directory"@);
    assert forall|j: int| 0 <= j < 9 implies (#[trigger] p[j]).0 != "assets_root"@ by {
        if j == 0 {
            assert("natives_directory"@.len() != "assets_root"@.len());
        }
        if j == 1 {
            assert("launcher_name"@.len() != "assets_root"@.len());
        }
        if j == 2 {
            assert("launcher_version"@.len() != "assets_root"@.len());
        }
        if j == 3 {
            assert("classpath"@.len() != "assets_root"@.len());
        }
        if j == 4 {
            assert("library_directory"@.len() != "assets_root"@.len());
        }
        if j == 5 {
            assert("classpath_separator"@.len() != "assets_root"@.len());
        }
        if j == 6 {
            assert("auth_player_name"@.len() != "assets_root"@.len());
        }
        if j == 7 {
            assert("version_name"@.len() != "assets_root"@.len());
        }
        if j == 8 {
            assert("game_directory"@.len() != "assets_root"@.len());
        }
    }
    lemma_value_at(p, 9, "assets_root"@);
    assert forall|j: int| 0 <= j < 10 implies (#[trigger] p[j]).0 != "assets_index_name"@ by {
        if j == 0 {
            assert("natives_directory"@[0] != "assets_index_name"@[0]);
        }
        if j == 1 {
            assert("launcher_name"@.len() != "assets_index_name"@.len());
        }
        if j == 2 {
            assert("launcher_version"@.len() != "assets_index_name"@.len());
        }
        if j == 3 {
            assert("classpath"@.len() != "assets_index_name"@.len());
        }
        if j == 4 {
            assert("library_directory"@[0] != "assets_index_name"@[0]);
        }
        if j == 5 {
            assert("classpath_separator"@.len() != "assets_index_name"@.len());
        }
        if j == 6 {
            assert("auth_player_name"@.len() != "assets_index_name"@.len());
        }
        if j == 7 {
            assert("version_name"@.len() != "assets_index_name"@.len());
        }
        if j == 8 {
            assert("game_directory"@.len() != "assets_index_name"@.len());
        }
        if j == 9 {
            assert("assets_root"@.len() != "assets_index_name"@.len());
        }
    }
    lemma_value_at(p, 10, "assets_index_name"@);
    assert forall|j: int| 0 <= j < 11 implies (#[trigger] p[j]).0 != "auth_uuid"@ by {
        if j == 0 {
            assert("natives_directory"@.len() != "auth_uuid"@.len());
        }
        if j == 1 {
            assert("launcher_name"@.len() != "auth_uuid"@.len());
        }
        if j == 2 {
            assert("launcher_version"@.len() != "auth_uuid"@.len());
        }
        if j == 3 {
            assert("classpath"@[0] != "auth_uuid"@[0]);
        }
        if j == 4 {
            assert("library_directory"@.len() != "auth_uuid"@.len());
        }
        if j == 5 {
            assert("classpath_separator"@.len() != "auth_uuid"@.len());
        }
        if j == 6 {
            assert("auth_player_name"@.len() != "auth_uuid"@.len());
        }
        if j == 7 {
            assert("version_name"@.len() != "auth_uuid"@.len());
        }
        if j == 8 {
            assert("game_directory"@.len() != "auth_uuid"@.len());
        }
        if j == 9 {
            assert("assets_root"@.len() != "auth_uuid"@.len());
        }
        if j == 10 {
            assert("assets_index_name"@.len() != "auth_uuid"@.len());
        }
    }
    lemma_value_at(p, 11, "auth_uuid"@);
    assert forall|j: int| 0 <= j < 12 implies (#[trigger] p[j]).0 != "auth_access_token"@ by {
        if j == 0 {
            assert("natives_directory"@[0] != "auth_access_token"@[0]);
        }
        if j == 1 {
            assert("launcher_name"@.len() != "auth_access_token"@.len());
        }
        if j == 2 {
            assert("launcher_version"@.len() != "auth_access_token"@.len());
        }
        if j == 3 {
            assert("classpath"@.len() != "auth_access_token"@.len());
        }
        if j == 4 {
            assert("library_directory"@[0] != "auth_access_token"@[0]);
        }
        if j == 5 {
            assert("classpath_separator"@.len() != "auth_access_token"@.len());
        }
        if j == 6 {
            assert("auth_player_name"@.len() != "auth_access_token"@.len());
        }
        if j == 7 {
            assert("version_name"@.len() != "auth_access_token"@.len());
        }
        if j == 8 {
            assert("game_directory"@.len() != "auth_access_token"@.len());
        }
        if j == 9 {
            assert("assets_root"@.len() != "auth_access_token"@.len());
        }
        if j == 10 {
            assert("assets_index_name"@[1] != "auth_access_token"@[1]);
        }
        if j == 11 {
            assert("auth_uuid"@.len() != "auth_access_token"@.len());
        }
    }
    lemma_value_at(p, 12, "auth_access_token"@);
    assert forall|j: int| 0 <= j < 13 implies (#[trigger] p[j]).0 != "clientid"@ by {
        if j == 0 {
            assert("natives_directory"@.len() != "clientid"@.len());
        }
        if j == 1 {
            assert("launcher_name"@.len() != "clientid"@.len());
        }
        if j == 2 {
            assert("launcher_version"@.len() != "clientid"@.len());
        }
        if j == 3 {
            assert("classpath"@.len() != "clientid"@.len());
        }
        if j == 4 {
            assert("library_directory"@.len() != "clientid"@.len());
        }
        if j == 5 {
            assert("classpath_separator"@.len() != "clientid"@.len());
        }
        if j == 6 {
            assert("auth_player_name"@.len() != "clientid"@.len());
        }
        if j == 7 {
            assert("version_name"@.len() != "clientid"@.len());
        }
        if j == 8 {
            assert("game_directory"@.len() != "clientid"@.len());
        }
        if j == 9 {
            assert("assets_root"@.len() != "clientid"@.len());
        }
        if j == 10 {
            assert("assets_index_name"@.len() != "clientid"@.len());
        }
        if j == 11 {
            assert("auth_uuid"@.len() != "clientid"@.len());
        }
        if j == 12 {
            assert("auth_access_token"@.len() != "clientid"@.len());
        }
    }
    lemma_value_at(p, 13, "clientid"@);
    assert forall|j: int| 0 <= j < 14 implies (#[trigger] p[j]).0 != "auth_xuid"@ by {
        if j == 0 {
            assert("natives_directory"@.len() != "auth_xuid"@.len());
        }
        if j == 1 {
            assert("launcher_name"@.len() != "auth_xuid"@.len());
        }
        if j == 2 {
            assert("launcher_version"@.len() != "auth_xuid"@.len());
        }
        if j == 3 {
            assert("classpath"@[0] != "auth_xuid"@[0]);
        }
        if j == 4 {
            assert("library_directory"@.len() != "auth_xuid"@.len());
        }
        if j == 5 {
            assert("classpath_separator"@.len() != "auth_xuid"@.len());
        }
        if j == 6 {
            assert("auth_player_name"@.len() != "auth_xuid"@.len());
        }
        if j == 7 {
            assert("version_name"@.len() != "auth_xuid"@.len());
        }
        if j == 8 {
            assert("game_directory"@.len() != "auth_xuid"@.len());
        }
        if j == 9 {
            assert("assets_root"@.len() != "auth_xuid"@.len());
        }
        if j == 10 {
            assert("assets_index_name"@.len() != "auth_xuid"@.len());
        }
        if j == 11 {
            assert("auth_uuid"@[5] != "auth_xuid"@[5]);
        }
        if j == 12 {
            assert("auth_access_token"@.len() != "auth_xuid"@.len());
        }
        if j == 13 {
            assert("clientid"@.len() != "auth_xuid"@.len());
        }
    }
    lemma_value_at(p, 14, "auth_xuid"@);
    assert forall|j: int| 0 <= j < 15 implies (#[trigger] p[j]).0 != "user_type"@ by {
        if j == 0 {
            assert("natives_directory"@.len() != "user_type"@.len());
        }
        if j == 1 {
            assert("launcher_name"@.len() != "user_type"@.len());
        }
        if j == 2 {
            assert("launcher_version"@.len() != "user_type"@.len());
        }
        if j == 3 {
            assert("classpath"@[0] != "user_type"@[0]);
        }
        if j == 4 {
            assert("library_directory"@.len() != "user_type"@.len());
        }
        if j == 5 {
            assert("classpath_separator"@.len() != "user_type"@.len());
        }
        if j == 6 {
            assert("auth_player_name"@.len() != "user_type"@.len());
        }
        if j == 7 {
            assert("version_name"@.len() != "user_type"@.len());
        }
        if j == 8 {
            assert("game_directory"@.len() != "user_type"@.len());
        }
        if j == 9 {
            assert("assets_root"@.len() != "user_type"@.len());
        }
        if j == 10 {
            assert("assets_index_name"@.len() != "user_type"@.len());
        }
        if j == 11 {
            assert("auth_uuid"@[0] != "user_type"@[0]);
        }
        if j == 12 {
            assert("auth_access_token"@.len() != "user_type"@.len());
        }
        if j == 13 {
            assert("clientid"@.len() != "user_type"@.len());
        }
        if j == 14 {
            assert("auth_xuid"@[0] != "user_type"@[0]);
        }
    }
    lemma_value_at(p, 15, "user_type"@);
    assert forall|j: int| 0 <= j < 16 implies (#[trigger] p[j]).0 != "version_type"@ by {
        if j == 0 {
            assert("natives_directory"@.len() != "version_type"@.len());
        }
        if j == 1 {
            assert("launcher_name"@.len() != "version_type"@.len());
        }
        if j == 2 {
            assert("launcher_version"@.len() != "version_type"@.len());
        }
        if j == 3 {
            assert("classpath"@.len() != "version_type"@.len());
        }
        if j == 4 {
            assert("library_directory"@.len() != "version_type"@.len());
        }
        if j == 5 {
            assert("classpath_separator"@.len() != "version_type"@.len());
        }
        if j == 6 {
            assert("auth_player_name"@.len() != "version_type"@.len());
        }
        if j == 7 {
            assert("version_name"@[8] != "version_type"@[8]);
        }
        if j == 8 {
            assert("game_directory"@.len() != "version_type"@.len());
        }
        if j == 9 {
            assert("assets_root"@.len() != "version_type"@.len());
        }
        if j == 10 {
            assert("assets_index_name"@.len() != "version_type"@.len());
        }
        if j == 11 {
            assert("auth_uuid"@.len() != "version_type"@.len());
        }
        if j == 12 {
            assert("auth_access_token"@.len() != "version_type"@.len());
        }
        if j == 13 {
            assert("clientid"@.len() != "version_type"@.len());
        }
        if j == 14 {
            assert("auth_xuid"@.len() != "version_type"@.len());
        }
        if j == 15 {
            assert("user_type"@.len() != "version_type"@.len());
        }
    }
    lemma_value_at(p, 16, "version_type"@);
    if connect_to_server {
        assert forall|j: int| 0 <= j < 17 implies (#[trigger] p[j]).0 != "quick_play_multiplayer"@ by {
            if j == 0 {
                assert("natives_directory"@.len() != "quick_play_multiplayer"@.len());
            }
            if j == 1 {
                assert("launcher_name"@.len() != "quick_play_multiplayer"@.len());
            }
            if j == 2 {
                assert("launcher_version"@.len() != "quick_play_multiplayer"@.len());
            }
            if j == 3 {
                assert("classpath"@.len() != "quick_play_multiplayer"@.len());
            }
            if j == 4 {
                assert("library_directory"@.len() != "quick_play_multiplayer"@.len());
            }
            if j == 5 {
                assert("classpath_separator"@.len() != "quick_play_multiplayer"@.len());
            }
            if j == 6 {
                assert("auth_player_name"@.len() != "quick_play_multiplayer"@.len());
            }
            if j == 7 {
                assert("version_name"@.len() != "quick_play_multiplayer"@.len());
            }
            if j == 8 {
                assert("game_directory"@.len() != "quick_play_multiplayer"@.len());
            }
            if j == 9 {
                assert("assets_root"@.len() != "quick_play_multiplayer"@.len());
            }
            if j == 10 {
                assert("assets_index_name"@.len() != "quick_play_multiplayer"@.len());
            }
            if j == 11 {
                assert("auth_uuid"@.len() != "quick_play_multiplayer"@.len());
            }
            if j == 12 {
                assert("auth_access_token"@.len() != "quick_play_multiplayer"@.len());
            }
            if j == 13 {
                assert("clientid"@.len() != "quick_play_multiplayer"@.len());
            }
            if j == 14 {
                assert("auth_xuid"@.len() != "quick_play_multiplayer"@.len());
            }
            if j == 15 {
                assert("user_type"@.len() != "quick_play_multiplayer"@.len());
            }
            if j == 16 {
                assert("version_type"@.len() != "quick_play_multiplayer"@.len());
            }
        }
        lemma_value_at(p, 17, "quick_play_multiplayer"@);
    } else {
        assert forall|j: int| 0 <= j < p.len() implies (#[trigger] p[j]).0 != "quick_play_multiplayer"@ by {
            if j == 0 {
                assert("natives_directory"@.len() != "quick_play_multiplayer"@.len());
            }
            if j == 1 {
                assert("launcher_name"@.len() != "quick_play_multiplayer"@.len());
            }
            if j == 2 {
                assert("launcher_version"@.len() != "quick_play_multiplayer"@.len());
            }
            if j == 3 {
                assert("classpath"@.len() != "quick_play_multiplayer"@.len());
            }
            if j == 4 {
                assert("library_directory"@.len() != "quick_play_multiplayer"@.len());
            }
            if j == 5 {
                assert("classpath_separator"@.len() != "quick_play_multiplayer"@.len());
            }
            if j == 6 {
                assert("auth_player_name"@.len() != "quick_play_multiplayer"@.len());
            }
            if j == 7 {
                assert("version_name"@.len() != "quick_play_multiplayer"@.len());
            }
            if j == 8 {
                assert("game_directory"@.len() != "quick_play_multiplayer"@.len());
            }
            if j == 9 {
                assert("assets_root"@.len() != "quick_play_multiplayer"@.len());
            }
            if j == 10 {
                assert("assets_index_name"@.len() != "quick_play_multiplayer"@.len());
            }
            if j == 11 {
                assert("auth_uuid"@.len() != "quick_play_multiplayer"@.len());
            }
            if j == 12 {
                assert("auth_access_token"@.len() != "quick_play_multiplayer"@.len());
            }
            if j == 13 {
                assert("clientid"@.len() != "quick_play_multiplayer"@.len());
            }
            if j == 14 {
                assert("auth_xuid"@.len() != "quick_play_multiplayer"@.len());
            }
            if j == 15 {
                assert("user_type"@.len() != "quick_play_multiplayer"@.len());
            }
            if j == 16 {
                assert("version_type"@.len() != "quick_play_multiplayer"@.len());
            }
        }
        lemma_value_absent(p, "quick_play_multiplayer"@);
    }
}

} // verus!
