//! The modpack: which mod jars the `mods` folder must hold.
use crate::minecraft::download::{FileRequest, FileRequestView, PathView};
use crate::paths::{mods_dir, FsPath};
use crate::text::{concat3, decimal, owned, spec_decimal, str_eq, views};
use vstd::prelude::*;

verus! {

#[derive(Debug, Clone)]
pub struct ModEntry {
    pub filename: String,
    pub url: String,
    pub sha1: Option<String>,
}

/// The list of mods of the modpack, for one game version and loader.
#[derive(Debug)]
pub struct ModsManifest {
    pub mc_version: String,
    pub loader: String,
    pub mods: Vec<ModEntry>,
}

impl ModsManifest {
    /// A manifest with no mods.
    pub fn empty(mc_version: &str, loader: &str) -> (m: Self)
        ensures
            m.mc_version@ == mc_version@,
            m.loader@ == loader@,
            m.mods@.len() == 0,
    {
        ModsManifest { mc_version: owned(mc_version), loader: owned(loader), mods: Vec::new() }
    }
}

/// The file names the manifest asks for.
pub open spec fn wanted_names(m: ModsManifest) -> Seq<Seq<char>> {
    m.mods@.map_values(|e: ModEntry| e.filename@)
}

/// Is `name` one of the manifest's files?
pub fn is_wanted(manifest: &ModsManifest, name: &str) -> (r: bool)
    ensures
        r == wanted_names(*manifest).contains(name@),
{
    let mut i: usize = 0;
    while i < manifest.mods.len()
        invariant
            i <= manifest.mods.len(),
            forall|j: int| 0 <= j < i ==> #[trigger] wanted_names(*manifest)[j] != name@,
        decreases manifest.mods.len() - i,
    {
        if str_eq(manifest.mods[i].filename.as_str(), name) {
            assert(wanted_names(*manifest)[i as int] == name@);
            return true;
        }
        i += 1;
    }
    false
}

/// The files of the `mods` folder (given by name, in folder order) that the
/// manifest does not list: they are deleted, so that the folder holds
/// exactly what the manifest says.
pub fn mods_to_remove(existing_files: &Vec<String>, manifest: &ModsManifest) -> (r: Vec<String>)
    ensures
        views(r@) == views(existing_files@).filter(|n: Seq<char>| !wanted_names(*manifest).contains(n)),
{
    let mut r: Vec<String> = Vec::new();
    let mut i: usize = 0;
    let ghost keep = |n: Seq<char>| !wanted_names(*manifest).contains(n);
    assert(views(existing_files@).take(0) =~= Seq::<Seq<char>>::empty());
    while i < existing_files.len()
        invariant
            i <= existing_files.len(),
            keep == (|n: Seq<char>| !wanted_names(*manifest).contains(n)),
            views(r@) == views(existing_files@).take(i as int).filter(keep),
        decreases existing_files.len() - i,
    {
        proof {
            assert(views(existing_files@).take(i + 1).drop_last() =~= views(existing_files@).take(i as int));
            assert(views(existing_files@).take(i + 1).last() == existing_files@[i as int]@);
            reveal_with_fuel(Seq::<Seq<char>>::filter, 1);
        }
        if !is_wanted(manifest, existing_files[i].as_str()) {
            let ghost prev = r@;
            r.push(existing_files[i].clone());
            assert(views(r@) =~= views(prev).push(existing_files@[i as int]@));
        }
        i += 1;
    }
    assert(views(existing_files@).take(existing_files.len() as int) =~= views(existing_files@));
    r
}

/// After the unlisted files are deleted and the listed ones downloaded, the
/// folder holds exactly the manifest's files: what was kept is listed, and
/// nothing listed was deleted.
pub proof fn lemma_mods_folder_matches_manifest(existing: Seq<Seq<char>>, wanted: Seq<Seq<char>>)
    ensures
        ({
            let removed = existing.filter(|n: Seq<char>| !wanted.contains(n));
            let kept = existing.to_set().difference(removed.to_set());
            &&& kept.subset_of(wanted.to_set())
            &&& removed.to_set().disjoint(wanted.to_set())
            &&& kept.union(wanted.to_set()) == wanted.to_set()
        }),
{
    let p = |n: Seq<char>| !wanted.contains(n);
    let removed = existing.filter(p);
    broadcast use vstd::seq_lib::group_filter_ensures;
    assert forall|n: Seq<char>| existing.to_set().contains(n) && !wanted.to_set().contains(n) implies removed.to_set().contains(n) by {
        let i = choose|i: int| 0 <= i < existing.len() && existing[i] == n;
        existing.filter_lemma(p);
        assert(removed.contains(n));
    }
    assert forall|n: Seq<char>| removed.to_set().contains(n) implies !wanted.to_set().contains(n) by {
        existing.filter_lemma(p);
        let i = choose|i: int| 0 <= i < removed.len() && removed[i] == n;
        assert(p(removed[i]));
    }
    let kept = existing.to_set().difference(removed.to_set());
    assert(kept.union(wanted.to_set()) =~= wanted.to_set());
}

/// The download of one mod: into the `mods` folder under its file name,
/// checked by its SHA-1 when the manifest gives one, size not checked.
pub fn mod_request(data_dir: &FsPath, entry: &ModEntry) -> (r: FileRequest)
    ensures
        r@ == (FileRequestView {
            url: entry.url@,
            dest: PathView {
                root: data_dir@.root,
                comps: data_dir@.comps + seq!["instances"@, "default"@, "mods"@, entry.filename@],
            },
            sha1: match entry.sha1 {
                Some(s) => Some(s@),
                None => None,
            },
            size: None,
        }),
{
    let dest = mods_dir(data_dir).join(entry.filename.as_str());
    assert(dest.comps() =~= data_dir@.comps + seq!["instances"@, "default"@, "mods"@, entry.filename@]);
    FileRequest {
        url: entry.url.clone(),
        dest,
        sha1: match &entry.sha1 {
            Some(s) => Some(s.clone()),
            None => None,
        },
        size: None,
    }
}

/// "Mods: <position>/<total> (<file name>)", `position` counting from 1.
pub fn mod_progress_message(position: u64, total: u64, filename: &str) -> (m: String)
    ensures
        m@ == "Mods: "@ + spec_decimal(position as nat) + "/"@ + spec_decimal(total as nat) + " ("@
            + filename@ + ")"@,
{
    let a = decimal(position);
    let b = decimal(total);
    let mut m = concat3("Mods: ", a.as_str(), "/");
    m.append(b.as_str());
    m.append(" (");
    m.append(filename);
    m.append(")");
    m
}

} // verus!
