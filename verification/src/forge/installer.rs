//! Installing Forge: which build, where its installer comes from, and what
//! the installer's run means.
use crate::error::Error;
use crate::paths::{cache_dir, instance_dir, is_at, FsPath};
use crate::strmap::StrMap;
use crate::text::{concat2, concat3, is_blank, owned, push_char, spec_trim, str_eq, trim, views};
use vstd::prelude::*;

verus! {

/// The promoted build of Forge for a game version: the "recommended" one,
/// else the "latest" one (`<mc>-recommended`, `<mc>-latest` in the
/// promotions list); none is an error naming the game version.
pub fn resolve_forge_version(promos: &StrMap<String>, mc_version: &str) -> (r: Result<String, Error>)
    ensures
        ({
            let rec = mc_version@ + "-recommended"@;
            let lat = mc_version@ + "-latest"@;
            if promos@.dom().contains(rec) {
                r matches Ok(v) && v@ == promos@[rec]@
            } else if promos@.dom().contains(lat) {
                r matches Ok(v) && v@ == promos@[lat]@
            } else {
                r matches Err(Error::ForgeVersionNotFound(m)) && m@ == mc_version@
            }
        }),
{
    let rec_key = concat2(mc_version, "-recommended");
    let lat_key = concat2(mc_version, "-latest");
    match promos.get(rec_key.as_str()) {
        Some(v) => Ok(v.clone()),
        None => match promos.get(lat_key.as_str()) {
            Some(v) => Ok(v.clone()),
            None => Err(Error::ForgeVersionNotFound(owned(mc_version))),
        },
    }
}

/// "<mc>-<forge>".
pub open spec fn full_version(mc: Seq<char>, forge: Seq<char>) -> Seq<char> {
    mc + "-"@ + forge
}

/// The official installer jar of a Forge build.
pub fn installer_url(mc_version: &str, forge_version: &str) -> (u: String)
    ensures
        u@ == "https://maven.minecraftforge.net/net/minecraftforge/forge/"@ + full_version(
            mc_version@,
            forge_version@,
        ) + "/forge-"@ + full_version(mc_version@, forge_version@) + "-installer.jar"@,
{
    let full = concat3(mc_version, "-", forge_version);
    let mut u = concat3("https://maven.minecraftforge.net/net/minecraftforge/forge/", full.as_str(), "/forge-");
    u.append(full.as_str());
    u.append("-installer.jar");
    u
}

/// The version id the installer is expected to create: "<mc>-forge-<forge>".
pub fn forge_version_id(mc_version: &str, forge_version: &str) -> (id: String)
    ensures
        id@ == mc_version@ + "-forge-"@ + forge_version@,
{
    concat3(mc_version, "-forge-", forge_version)
}

/// Where the installer is kept: `cache/forge-<mc>-<forge>-installer.jar`.
pub fn installer_jar_path(data_dir: &FsPath, mc_version: &str, forge_version: &str) -> (p: FsPath)
    ensures
        p.root@ == data_dir.root@,
        p.comps() == data_dir.comps() + seq!["cache"@, "forge-"@ + full_version(mc_version@, forge_version@) + "-installer.jar"@],
{
    let full = concat3(mc_version, "-", forge_version);
    let name = concat3("forge-", full.as_str(), "-installer.jar");
    let p = cache_dir(data_dir).join(name.as_str());
    assert(p.comps() =~= data_dir.comps() + seq!["cache"@, "forge-"@ + full_version(mc_version@, forge_version@) + "-installer.jar"@]);
    p
}

/// One argument of a command line: text, or a path that the application
/// renders for the system.
#[derive(Debug)]
pub enum CommandArg {
    Text(String),
    Path(FsPath),
}

/// How the Forge installer is run: the program, its arguments, and the
/// folder it runs in.
#[derive(Debug)]
pub struct InstallerRun {
    pub program: String,
    pub args: Vec<CommandArg>,
    pub current_dir: FsPath,
}

/// The headless run of the installer with the found Java:
/// `java -jar <installer jar> --installClient <instance folder>`, in the
/// cache folder.
pub fn installer_run(data_dir: &FsPath, java_exe: &str, mc_version: &str, forge_version: &str) -> (r:
    InstallerRun)
    ensures
        r.program@ == java_exe@,
        r.args@.len() == 4,
        r.args@[0] matches CommandArg::Text(t) && t@ == "-jar"@,
        r.args@[1] matches CommandArg::Path(jar) && is_at(
            jar,
            *data_dir,
            seq!["cache"@, "forge-"@ + full_version(mc_version@, forge_version@) + "-installer.jar"@],
        ),
        r.args@[2] matches CommandArg::Text(t) && t@ == "--installClient"@,
        r.args@[3] matches CommandArg::Path(dir) && is_at(dir, *data_dir, seq!["instances"@, "default"@]),
        is_at(r.current_dir, *data_dir, seq!["cache"@]),
{
    let jar = installer_jar_path(data_dir, mc_version, forge_version);
    let mut args: Vec<CommandArg> = Vec::new();
    args.push(CommandArg::Text(owned("-jar")));
    args.push(CommandArg::Path(jar));
    args.push(CommandArg::Text(owned("--installClient")));
    args.push(CommandArg::Path(instance_dir(data_dir)));
    InstallerRun { program: owned(java_exe), args, current_dir: cache_dir(data_dir) }
}

/// The details of a failed installer run: its trimmed standard output, then
/// (on a new line when both are present) its trimmed error output.
pub open spec fn spec_failure_details(stdout: Seq<char>, stderr: Seq<char>) -> Seq<char> {
    let out = spec_trim(stdout);
    let err = spec_trim(stderr);
    if err.len() == 0 {
        out
    } else if out.len() == 0 {
        err
    } else {
        out + seq!['\n'] + err
    }
}

/// The error of a failed installer run, with its exit code and output.
pub fn forge_install_failure(code: Option<i32>, stdout: &str, stderr: &str) -> (e: Error)
    ensures
        e matches Error::ForgeInstallFailed { code: c, details } && c == code && details@
            == spec_failure_details(stdout@, stderr@),
{
    let mut details = trim(stdout);
    let err = trim(stderr);
    if !is_blank(stderr) {
        if details.as_str().unicode_len() != 0 {
            push_char(&mut details, '\n');
        }
        details.append(err.as_str());
    }
    proof {
        if spec_trim(stderr@).len() != 0 && spec_trim(stdout@).len() == 0 {
            assert(details@ =~= spec_trim(stderr@));
        }
    }
    Error::ForgeInstallFailed { code, details }
}

/// A folder present after the installer ran that was not there before: the
/// first such one in `after`'s order.
pub fn new_version_dir(before: &Vec<String>, after: &Vec<String>) -> (r: Option<String>)
    ensures
        r matches Some(d) ==> views(after@).contains(d@) && !views(before@).contains(d@),
        r matches Some(d) ==> exists|i: int|
            0 <= i < after@.len() && #[trigger] after@[i]@ == d@ && forall|j: int|
                0 <= j < i ==> views(before@).contains(#[trigger] after@[j]@),
        r is None ==> forall|i: int| 0 <= i < after@.len() ==> views(before@).contains(#[trigger] after@[i]@),
{
    let mut i: usize = 0;
    while i < after.len()
        invariant
            i <= after.len(),
            forall|j: int| 0 <= j < i ==> views(before@).contains(#[trigger] after@[j]@),
        decreases after.len() - i,
    {
        let mut found = false;
        let mut k: usize = 0;
        while k < before.len()
            invariant
                k <= before.len(),
                i < after.len(),
                found == exists|j: int| 0 <= j < k && #[trigger] before@[j]@ == after@[i as int]@,
            decreases before.len() - k,
        {
            if str_eq(before[k].as_str(), after[i].as_str()) {
                found = true;
            }
            k += 1;
        }
        if !found {
            proof {
                assert(views(after@)[i as int] == after@[i as int]@);
                if views(before@).contains(after@[i as int]@) {
                    let j = choose|j: int| 0 <= j < before@.len() && views(before@)[j] == after@[i as int]@;
                    assert(before@[j]@ == after@[i as int]@);
                }
            }
            return Some(after[i].clone());
        }
        proof {
            let j = choose|j: int| 0 <= j < k && #[trigger] before@[j]@ == after@[i as int]@;
            assert(views(before@)[j] == after@[i as int]@);
        }
        i += 1;
    }
    None
}

/// Which version id the installation produced: the expected one when its
/// version file exists, else a version folder that appeared during the
/// installation (the first one in `after`'s order); with neither, the error
/// naming the missing file (`missing_display`, the expected version file's path).
pub fn installed_version_id(
    expected_id: &str,
    expected_json_exists: bool,
    before: &Vec<String>,
    after: &Vec<String>,
    missing_display: &str,
) -> (r: Result<String, Error>)
    ensures
        expected_json_exists ==> (r matches Ok(id) && id@ == expected_id@),
        !expected_json_exists ==> match r {
            Ok(id) => views(after@).contains(id@) && !views(before@).contains(id@) && exists|i: int|
                0 <= i < after@.len() && #[trigger] after@[i]@ == id@ && forall|j: int|
                    0 <= j < i ==> views(before@).contains(#[trigger] after@[j]@),
            Err(e) => (e matches Error::ForgeVersionJsonMissing(p) && p@ == missing_display@) && forall|i: int|
                0 <= i < after@.len() ==> views(before@).contains(#[trigger] after@[i]@),
        },
{
    if expected_json_exists {
        return Ok(owned(expected_id));
    }
    match new_version_dir(before, after) {
        Some(id) => Ok(id),
        None => Err(Error::ForgeVersionJsonMissing(owned(missing_display))),
    }
}

} // verus!
