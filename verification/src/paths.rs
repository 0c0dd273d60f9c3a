//! Where the launcher keeps its files.
//!
//! A path is a base directory (what the operating system reports, taken as
//! it is) followed by components; the application turns it into a native
//! path by joining the components in order.
use crate::text::{concat2, owned, push_all_cloned, views};
use vstd::prelude::*;

verus! {

#[derive(Debug, Clone, PartialEq, Eq)]
pub struct FsPath {
    pub root: String,
    pub parts: Vec<String>,
}

impl FsPath {
    /// The components after the base directory.
    pub open spec fn comps(&self) -> Seq<Seq<char>> {
        views(self.parts@)
    }

    /// A path that is just a base directory.
    pub fn from_root(root: &str) -> (p: FsPath)
        ensures
            p.root@ == root@,
            p.comps() == Seq::<Seq<char>>::empty(),
    {
        let p = FsPath { root: owned(root), parts: Vec::new() };
        assert(p.comps() =~= Seq::<Seq<char>>::empty());
        p
    }

    /// A copy of the path.
    pub fn duplicate(&self) -> (p: FsPath)
        ensures
            p.root@ == self.root@,
            p.comps() == self.comps(),
    {
        let mut parts: Vec<String> = Vec::new();
        push_all_cloned(&mut parts, &self.parts);
        assert(views(parts@) =~= views(self.parts@));
        FsPath { root: self.root.clone(), parts }
    }

    /// The path one level deeper, into `part` (`Path::join` with a relative component).
    pub fn join(&self, part: &str) -> (p: FsPath)
        ensures
            p.root@ == self.root@,
            p.comps() == self.comps().push(part@),
    {
        let mut p = self.duplicate();
        p.parts.push(owned(part));
        assert(p.comps() =~= self.comps().push(part@));
        p
    }
}

/// Same base directory, `c` after `base`'s components.
pub open spec fn is_at(p: FsPath, base: FsPath, c: Seq<Seq<char>>) -> bool {
    p.root@ == base.root@ && p.comps() == base.comps() + c
}

/// The launcher's own folder: `SegestriaLauncher` in the system's data
/// folder, or in the temporary folder when the system reports none.
pub fn data_dir(os_data_dir: Option<String>, temp_dir: String) -> (p: FsPath)
    ensures
        p.root@ == match os_data_dir {
            Some(d) => d@,
            None => temp_dir@,
        },
        p.comps() == seq!["SegestriaLauncher"@],
{
    let base = match os_data_dir {
        Some(d) => d,
        None => temp_dir,
    };
    let p = FsPath::from_root(base.as_str()).join("SegestriaLauncher");
    assert(p.comps() =~= seq!["SegestriaLauncher"@]);
    p
}

/// The game instance (the equivalent of a `.minecraft` folder).
pub fn instance_dir(data_dir: &FsPath) -> (p: FsPath)
    ensures
        is_at(p, *data_dir, seq!["instances"@, "default"@]),
{
    let p = data_dir.join("instances").join("default");
    assert(p.comps() =~= data_dir.comps() + seq!["instances"@, "default"@]);
    p
}

pub fn versions_dir(data_dir: &FsPath) -> (p: FsPath)
    ensures
        is_at(p, *data_dir, seq!["instances"@, "default"@, "versions"@]),
{
    let p = instance_dir(data_dir).join("versions");
    assert(p.comps() =~= data_dir.comps() + seq!["instances"@, "default"@, "versions"@]);
    p
}

pub fn libraries_dir(data_dir: &FsPath) -> (p: FsPath)
    ensures
        is_at(p, *data_dir, seq!["instances"@, "default"@, "libraries"@]),
{
    let p = instance_dir(data_dir).join("libraries");
    assert(p.comps() =~= data_dir.comps() + seq!["instances"@, "default"@, "libraries"@]);
    p
}

pub fn assets_dir(data_dir: &FsPath) -> (p: FsPath)
    ensures
        is_at(p, *data_dir, seq!["instances"@, "default"@, "assets"@]),
{
    let p = instance_dir(data_dir).join("assets");
    assert(p.comps() =~= data_dir.comps() + seq!["instances"@, "default"@, "assets"@]);
    p
}

pub fn mods_dir(data_dir: &FsPath) -> (p: FsPath)
    ensures
        is_at(p, *data_dir, seq!["instances"@, "default"@, "mods"@]),
{
    let p = instance_dir(data_dir).join("mods");
    assert(p.comps() =~= data_dir.comps() + seq!["instances"@, "default"@, "mods"@]);
    p
}

/// Where the native libraries of a version are unpacked.
pub fn natives_dir(data_dir: &FsPath, version_id: &str) -> (p: FsPath)
    ensures
        is_at(p, *data_dir, seq!["natives"@, version_id@]),
{
    let p = data_dir.join("natives").join(version_id);
    assert(p.comps() =~= data_dir.comps() + seq!["natives"@, version_id@]);
    p
}

pub fn cache_dir(data_dir: &FsPath) -> (p: FsPath)
    ensures
        is_at(p, *data_dir, seq!["cache"@]),
{
    let p = data_dir.join("cache");
    assert(p.comps() =~= data_dir.comps() + seq!["cache"@]);
    p
}

pub fn settings_file(data_dir: &FsPath) -> (p: FsPath)
    ensures
        is_at(p, *data_dir, seq!["settings.json"@]),
{
    let p = data_dir.join("settings.json");
    assert(p.comps() =~= data_dir.comps() + seq!["settings.json"@]);
    p
}

pub fn version_dir(data_dir: &FsPath, version_id: &str) -> (p: FsPath)
    ensures
        is_at(p, *data_dir, seq!["instances"@, "default"@, "versions"@, version_id@]),
{
    let p = versions_dir(data_dir).join(version_id);
    assert(p.comps() =~= data_dir.comps() + seq![
        "instances"@,
        "default"@,
        "versions"@,
        version_id@,
    ]);
    p
}

/// `versions/<id>/<id>.json`.
pub fn version_json_path(data_dir: &FsPath, version_id: &str) -> (p: FsPath)
    ensures
        is_at(
            p,
            *data_dir,
            seq!["instances"@, "default"@, "versions"@, version_id@, version_id@ + ".json"@],
        ),
{
    let name = concat2(version_id, ".json");
    let p = version_dir(data_dir, version_id).join(name.as_str());
    assert(p.comps() =~= data_dir.comps() + seq![
        "instances"@,
        "default"@,
        "versions"@,
        version_id@,
        version_id@ + ".json"@,
    ]);
    p
}

/// `versions/<id>/<id>.jar`.
pub fn version_jar_path(data_dir: &FsPath, version_id: &str) -> (p: FsPath)
    ensures
        is_at(
            p,
            *data_dir,
            seq!["instances"@, "default"@, "versions"@, version_id@, version_id@ + ".jar"@],
        ),
{
    let name = concat2(version_id, ".jar");
    let p = version_dir(data_dir, version_id).join(name.as_str());
    assert(p.comps() =~= data_dir.comps() + seq![
        "instances"@,
        "default"@,
        "versions"@,
        version_id@,
        version_id@ + ".jar"@,
    ]);
    p
}

/// The folders that must exist before anything else runs, in creation order:
/// the data folder, the instance, and the instance's versions, libraries,
/// assets and mods folders, then the cache.
pub fn ensure_dirs(data_dir: &FsPath) -> (dirs: Vec<FsPath>)
    ensures
        dirs@.len() == 7,
        is_at(dirs@[0], *data_dir, Seq::<Seq<char>>::empty()),
        is_at(dirs@[1], *data_dir, seq!["instances"@, "default"@]),
        is_at(dirs@[2], *data_dir, seq!["instances"@, "default"@, "versions"@]),
        is_at(dirs@[3], *data_dir, seq!["instances"@, "default"@, "libraries"@]),
        is_at(dirs@[4], *data_dir, seq!["instances"@, "default"@, "assets"@]),
        is_at(dirs@[5], *data_dir, seq!["instances"@, "default"@, "mods"@]),
        is_at(dirs@[6], *data_dir, seq!["cache"@]),
{
    let mut dirs: Vec<FsPath> = Vec::new();
    let d = data_dir.duplicate();
    assert(d.comps() =~= data_dir.comps() + Seq::<Seq<char>>::empty());
    dirs.push(d);
    dirs.push(instance_dir(data_dir));
    dirs.push(versions_dir(data_dir));
    dirs.push(libraries_dir(data_dir));
    dirs.push(assets_dir(data_dir));
    dirs.push(mods_dir(data_dir));
    dirs.push(cache_dir(data_dir));
    dirs
}

/// The version file and the game jar of a version sit side by side in the
/// version's folder, under different names.
pub proof fn lemma_version_files_distinct(data_dir: FsPath, json: FsPath, jar: FsPath, id: Seq<char>)
    requires
        is_at(json, data_dir, seq!["instances"@, "default"@, "versions"@, id, id + ".json"@]),
        is_at(jar, data_dir, seq!["instances"@, "default"@, "versions"@, id, id + ".jar"@]),
    ensures
        json.comps().drop_last() == jar.comps().drop_last(),
        json.comps() != jar.comps(),
{
    reveal_strlit(".json");
    reveal_strlit(".jar");
    assert(json.comps().drop_last() =~= jar.comps().drop_last());
    assert(json.comps().last().len() != jar.comps().last().len());
}

} // verus!
