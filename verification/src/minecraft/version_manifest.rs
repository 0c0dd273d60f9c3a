//! The game's version files: their shape, and the rules that turn a chain of
//! files (`inheritsFrom`) into one resolved version.
use super::rules::{current_arch, current_os_name, rules_allow, spec_os_name, spec_rules_allow, ArchKind, Host, Rule};
use crate::error::Error;
use crate::strmap::StrMap;
use crate::text::{push_all_cloned, concat2, concat3, owned, ends_with, replace_all, spec_ends_with, spec_replace, spec_split, split_char, views};
use vstd::prelude::*;

verus! {

/// The list of game versions that Mojang publishes.
#[derive(Debug)]
pub struct VersionManifest {
    pub versions: Vec<VersionManifestEntry>,
}

#[derive(Debug)]
pub struct VersionManifestEntry {
    pub id: String,
    pub url: String,
}

/// Where a file comes from and what it must look like.
#[derive(Debug, Clone)]
pub struct DownloadInfo {
    pub url: String,
    pub sha1: String,
    pub size: u64,
    pub path: Option<String>,
}

impl DownloadInfo {
    /// A copy equal to `self`.
    pub fn duplicate(&self) -> (r: Self)
        ensures
            r == *self,
    {
        DownloadInfo {
            url: self.url.clone(),
            sha1: self.sha1.clone(),
            size: self.size,
            path: match &self.path {
                Some(p) => Some(p.clone()),
                None => None,
            },
        }
    }
}

#[derive(Debug)]
pub struct Downloads {
    pub client: Option<DownloadInfo>,
}

#[derive(Debug, Clone)]
pub struct AssetIndexRef {
    pub id: String,
    pub url: String,
    pub sha1: String,
    pub size: u64,
}

#[derive(Debug, Clone, Copy)]
pub struct JavaVersionInfo {
    pub major_version: u32,
}

#[derive(Debug)]
pub struct LibraryDownloads {
    pub artifact: Option<DownloadInfo>,
    pub classifiers: Option<StrMap<DownloadInfo>>,
}

#[derive(Debug)]
pub struct ExtractRules {
    pub exclude: Vec<String>,
}

#[derive(Debug)]
pub struct Library {
    pub name: String,
    pub url: Option<String>,
    pub downloads: Option<LibraryDownloads>,
    pub natives: Option<StrMap<String>>,
    pub rules: Option<Vec<Rule>>,
    pub extract: Option<ExtractRules>,
}

/// "group:artifact[:classifier]" of a Maven coordinate "group:artifact:version[:classifier]":
/// the version is dropped, the classifier (fourth part) is kept; a name with
/// fewer than two parts is its own key.
pub open spec fn spec_coordinate_key(name: Seq<char>) -> Seq<char> {
    let parts = spec_split(name, ':');
    if parts.len() >= 4 {
        parts[0] + ":"@ + parts[1] + ":"@ + parts[3]
    } else if parts.len() >= 2 {
        parts[0] + ":"@ + parts[1]
    } else {
        name
    }
}

/// The key keeps the classifier: native variants of one artifact
/// (natives-windows, natives-linux, ...) never replace each other.
pub proof fn lemma_key_keeps_classifier(a: Seq<char>, b: Seq<char>)
    requires
        spec_split(a, ':').len() >= 4,
        spec_split(b, ':').len() >= 4,
        spec_split(a, ':')[3] != spec_split(b, ':')[3],
    ensures
        spec_coordinate_key(a) != spec_coordinate_key(b),
{
    let pa = spec_split(a, ':');
    let pb = spec_split(b, ':');
    crate::text::lemma_split_pieces_lack_sep(a, ':');
    crate::text::lemma_split_pieces_lack_sep(b, ':');
    reveal_strlit(":");
    if spec_coordinate_key(a) == spec_coordinate_key(b) {
        assert(spec_coordinate_key(a) =~= pa[0] + seq![':'] + (pa[1] + seq![':'] + pa[3]));
        assert(spec_coordinate_key(b) =~= pb[0] + seq![':'] + (pb[1] + seq![':'] + pb[3]));
        assert forall|j: int| 0 <= j < pa[0].len() implies pa[0][j] != ':' by {
            assert(pa[0][j] != ':');
        }
        assert forall|j: int| 0 <= j < pb[0].len() implies pb[0][j] != ':' by {
            assert(pb[0][j] != ':');
        }
        crate::text::lemma_sep_join_injective(pa[0], pa[1] + seq![':'] + pa[3], pb[0], pb[1] + seq![':'] + pb[3], ':');
        assert forall|j: int| 0 <= j < pa[1].len() implies pa[1][j] != ':' by {
            assert(pa[1][j] != ':');
        }
        assert forall|j: int| 0 <= j < pb[1].len() implies pb[1][j] != ':' by {
            assert(pb[1][j] != ':');
        }
        crate::text::lemma_sep_join_injective(pa[1], pa[3], pb[1], pb[3], ':');
    }
}

/// The key ignores the version: names that differ only there share a key.
pub proof fn lemma_key_ignores_version(a: Seq<char>, b: Seq<char>)
    requires
        spec_split(a, ':').len() == spec_split(b, ':').len(),
        spec_split(a, ':').len() >= 2,
        spec_split(a, ':')[0] == spec_split(b, ':')[0],
        spec_split(a, ':')[1] == spec_split(b, ':')[1],
        spec_split(a, ':').len() >= 4 ==> spec_split(a, ':')[3] == spec_split(b, ':')[3],
    ensures
        spec_coordinate_key(a) == spec_coordinate_key(b),
{
}

/// For coordinates with at least group, artifact and version, the key is
/// shared exactly when group and artifact agree and so does the fourth part
/// (the classifier), or both lack one: the version never matters, the
/// classifier always does. So "org.ow2.asm:asm:9.3" and "org.ow2.asm:asm:9.5"
/// share a key, and "a:b:1" never shares one with "a:b:1:natives-linux".
pub proof fn lemma_coordinate_key_equivalence(a: Seq<char>, b: Seq<char>)
    requires
        spec_split(a, ':').len() >= 3,
        spec_split(b, ':').len() >= 3,
    ensures
        spec_coordinate_key(a) == spec_coordinate_key(b) <==> ({
            let pa = spec_split(a, ':');
            let pb = spec_split(b, ':');
            &&& pa[0] == pb[0]
            &&& pa[1] == pb[1]
            &&& (pa.len() >= 4) == (pb.len() >= 4)
            &&& (pa.len() >= 4 ==> pa[3] == pb[3])
        }),
{
    let pa = spec_split(a, ':');
    let pb = spec_split(b, ':');
    crate::text::lemma_split_pieces_lack_sep(a, ':');
    crate::text::lemma_split_pieces_lack_sep(b, ':');
    reveal_strlit(":");
    assert forall|j: int| 0 <= j < pa[0].len() implies pa[0][j] != ':' by {
        assert(pa[0][j] != ':');
    }
    assert forall|j: int| 0 <= j < pb[0].len() implies pb[0][j] != ':' by {
        assert(pb[0][j] != ':');
    }
    assert forall|j: int| 0 <= j < pa[1].len() implies pa[1][j] != ':' by {
        assert(pa[1][j] != ':');
    }
    assert forall|j: int| 0 <= j < pb[1].len() implies pb[1][j] != ':' by {
        assert(pb[1][j] != ':');
    }
    let ya = if pa.len() >= 4 {
        pa[1] + seq![':'] + pa[3]
    } else {
        pa[1]
    };
    let yb = if pb.len() >= 4 {
        pb[1] + seq![':'] + pb[3]
    } else {
        pb[1]
    };
    assert(spec_coordinate_key(a) =~= pa[0] + seq![':'] + ya);
    assert(spec_coordinate_key(b) =~= pb[0] + seq![':'] + yb);
    if spec_coordinate_key(a) == spec_coordinate_key(b) {
        crate::text::lemma_sep_join_injective(pa[0], ya, pb[0], yb, ':');
        if pa.len() >= 4 && pb.len() >= 4 {
            crate::text::lemma_sep_join_injective(pa[1], pa[3], pb[1], pb[3], ':');
        } else if pa.len() >= 4 {
            assert(ya[pa[1].len() as int] == ':');
            assert(pb[1][pa[1].len() as int] == ':');
        } else if pb.len() >= 4 {
            assert(yb[pb[1].len() as int] == ':');
            assert(pa[1][pb[1].len() as int] == ':');
        }
    }
}

/// Libraries whose name ends in "-arm64" or "-x86" are for that architecture only.
pub open spec fn spec_matches_arch(name: Seq<char>, host: Host) -> bool {
    if spec_ends_with(name, "-arm64"@) {
        host.arch == ArchKind::Arm64
    } else if spec_ends_with(name, "-x86"@) {
        host.arch == ArchKind::X86
    } else {
        true
    }
}

/// Is the library used on `host` with these features?
pub open spec fn spec_library_allowed(lib: Library, features: Map<Seq<char>, bool>, host: Host) -> bool {
    spec_matches_arch(lib.name@, host) && match lib.rules {
        Some(rules) => spec_rules_allow(rules@, features, host),
        None => true,
    }
}

/// "64" or "32": the word size that replaces `${arch}` in classifiers.
pub open spec fn spec_arch_bits(host: Host) -> Seq<char> {
    if host.pointer_width_64 {
        "64"@
    } else {
        "32"@
    }
}

/// The classifier of this library's native jar for `host`, if it has one.
pub open spec fn spec_native_classifier(lib: Library, host: Host) -> Option<Seq<char>> {
    match lib.natives {
        Some(natives) => if natives@.dom().contains(spec_os_name(host.os)) {
            Some(spec_replace(natives@[spec_os_name(host.os)]@, "${arch}"@, spec_arch_bits(host)))
        } else {
            None
        },
        None => None,
    }
}

impl Library {
    /// Key used to tell when a child version replaces a parent's library.
    pub fn coordinate_key(&self) -> (k: String)
        ensures
            k@ == spec_coordinate_key(self.name@),
    {
        let parts = split_char(self.name.as_str(), ':');
        let n = parts.len();
        if n >= 4 {
            let mut k = concat3(parts[0].as_str(), ":", parts[1].as_str());
            k.append(":");
            k.append(parts[3].as_str());
            k
        } else if n >= 2 {
            concat3(parts[0].as_str(), ":", parts[1].as_str())
        } else {
            self.name.clone()
        }
    }

    /// Does the library apply on `host` with these features?
    pub fn is_allowed(&self, features: &StrMap<bool>, host: &Host) -> (r: bool)
        ensures
            r == spec_library_allowed(*self, features@, *host),
    {
        if !self.matches_current_arch(host) {
            return false;
        }
        match &self.rules {
            Some(rules) => rules_allow(rules, features, host),
            None => true,
        }
    }

    /// The vanilla files do not tell the x86 and arm64 variants apart by
    /// rules, only by the suffix of the name.
    pub fn matches_current_arch(&self, host: &Host) -> (r: bool)
        ensures
            r == spec_matches_arch(self.name@, *host),
    {
        if ends_with(self.name.as_str(), "-arm64") {
            return host.arch == ArchKind::Arm64;
        }
        if ends_with(self.name.as_str(), "-x86") {
            return host.arch == ArchKind::X86;
        }
        true
    }

    /// Classifier of the native jar for `host`, with `${arch}` replaced by the word size.
    pub fn native_classifier(&self, host: &Host) -> (r: Option<String>)
        ensures
            r matches Some(c) ==> spec_native_classifier(*self, *host) == Some(c@),
            r is None ==> spec_native_classifier(*self, *host) is None,
    {
        let natives = match &self.natives {
            Some(n) => n,
            None => return None,
        };
        let key = current_os_name(host);
        let bits = if host.pointer_width_64 {
            "64"
        } else {
            "32"
        };
        match natives.get(key) {
            Some(v) => {
                proof {
                    reveal_strlit("${arch}");
                }
                Some(replace_all(v.as_str(), "${arch}", bits))
            },
            None => None,
        }
    }
}

#[derive(Debug)]
pub enum ArgValue {
    Single(String),
    Multiple(Vec<String>),
}

#[derive(Debug)]
pub struct ConditionalArg {
    pub rules: Vec<Rule>,
    pub value: ArgValue,
}

#[derive(Debug)]
pub enum ArgEntry {
    Plain(String),
    Conditional(ConditionalArg),
}

#[derive(Debug)]
pub struct Arguments {
    pub game: Vec<ArgEntry>,
    pub jvm: Vec<ArgEntry>,
}

impl Arguments {
    /// No arguments at all.
    pub fn empty() -> (a: Self)
        ensures
            a.game@.len() == 0,
            a.jvm@.len() == 0,
    {
        Arguments { game: Vec::new(), jvm: Vec::new() }
    }
}

/// The arguments one entry contributes.
pub open spec fn spec_entry_args(e: ArgEntry, features: Map<Seq<char>, bool>, host: Host) -> Seq<Seq<char>> {
    match e {
        ArgEntry::Plain(s) => seq![s@],
        ArgEntry::Conditional(c) => if spec_rules_allow(c.rules@, features, host) {
            match c.value {
                ArgValue::Single(s) => seq![s@],
                ArgValue::Multiple(v) => views(v@),
            }
        } else {
            Seq::<Seq<char>>::empty()
        },
    }
}

/// All arguments of a list of entries, in order.
pub open spec fn spec_resolve_args(entries: Seq<ArgEntry>, features: Map<Seq<char>, bool>, host: Host) -> Seq<Seq<char>>
    decreases entries.len(),
{
    if entries.len() == 0 {
        Seq::<Seq<char>>::empty()
    } else {
        spec_resolve_args(entries.drop_last(), features, host) + spec_entry_args(
            entries.last(),
            features,
            host,
        )
    }
}

/// The arguments of `entries` that apply on `host` with `features`.
pub fn resolve_args(entries: &Vec<ArgEntry>, features: &StrMap<bool>, host: &Host) -> (out: Vec<String>)
    ensures
        views(out@) == spec_resolve_args(entries@, features@, *host),
{
    let mut out: Vec<String> = Vec::new();
    let mut i: usize = 0;
    assert(views(out@) =~= spec_resolve_args(entries@.take(0), features@, *host));
    while i < entries.len()
        invariant
            i <= entries.len(),
            views(out@) == spec_resolve_args(entries@.take(i as int), features@, *host),
        decreases entries.len() - i,
    {
        proof {
            assert(entries@.take(i + 1).drop_last() =~= entries@.take(i as int));
            assert(entries@.take(i + 1).last() == entries@[i as int]);
        }
        match &entries[i] {
            ArgEntry::Plain(s) => {
                out.push(s.clone());
                assert(views(out@) =~= spec_resolve_args(entries@.take(i + 1), features@, *host));
            },
            ArgEntry::Conditional(c) => {
                if rules_allow(&c.rules, features, host) {
                    match &c.value {
                        ArgValue::Single(s) => {
                            out.push(s.clone());
                            assert(views(out@) =~= spec_resolve_args(entries@.take(i + 1), features@, *host));
                        },
                        ArgValue::Multiple(v) => {
                            push_all_cloned(&mut out, v);
                        },
                    }
                } else {
                    assert(views(out@) =~= spec_resolve_args(entries@.take(i + 1), features@, *host));
                }
            },
        }
        i += 1;
    }
    assert(entries@.take(entries.len() as int) =~= entries@);
    out
}


/// Where the version file of `version_id` is published: the URL of the first
/// entry of the manifest with that id.
pub fn find_version_url(manifest: &VersionManifest, version_id: &str) -> (r: Result<String, Error>)
    ensures
        match r {
            Ok(url) => exists|i: int|
                0 <= i < manifest.versions@.len() && (#[trigger] manifest.versions@[i]).id@ == version_id@
                    && url@ == manifest.versions@[i].url@ && forall|j: int|
                    0 <= j < i ==> (#[trigger] manifest.versions@[j]).id@ != version_id@,
            Err(e) => (e matches Error::VersionNotFound(m) && m@ == version_id@) && forall|i: int|
                0 <= i < manifest.versions@.len() ==> (#[trigger] manifest.versions@[i]).id@ != version_id@,
        },
{
    let mut i: usize = 0;
    while i < manifest.versions.len()
        invariant
            i <= manifest.versions@.len(),
            forall|j: int| 0 <= j < i ==> (#[trigger] manifest.versions@[j]).id@ != version_id@,
        decreases manifest.versions@.len() - i,
    {
        if crate::text::str_eq(manifest.versions[i].id.as_str(), version_id) {
            return Ok(manifest.versions[i].url.clone());
        }
        i += 1;
    }
    Err(Error::VersionNotFound(owned(version_id)))
}

/// A version file as Mojang (or the Forge installer) writes it.
#[derive(Debug)]
pub struct RawVersionInfo {
    pub id: String,
    pub main_class: Option<String>,
    pub arguments: Option<Arguments>,
    pub libraries: Vec<Library>,
    pub downloads: Option<Downloads>,
    pub asset_index: Option<AssetIndexRef>,
    pub assets: Option<String>,
    pub java_version: Option<JavaVersionInfo>,
    pub inherits_from: Option<String>,
}

/// A version with its `inheritsFrom` chain flattened.
#[derive(Debug)]
pub struct ResolvedVersion {
    pub id: String,
    pub main_class: String,
    pub arguments: Arguments,
    pub libraries: Vec<Library>,
    pub client_download: Option<DownloadInfo>,
    pub asset_index: AssetIndexRef,
    pub assets: String,
    pub java_major_version: u32,
}

pub open spec fn lib_key(l: Library) -> Seq<char> {
    spec_coordinate_key(l.name@)
}

/// `libs` without the libraries whose key is `key`.
pub open spec fn without_key(libs: Seq<Library>, key: Seq<char>) -> Seq<Library> {
    libs.filter(|x: Library| lib_key(x) != key)
}

/// The child's libraries laid over the parent's, one after another: each one
/// removes every library with the same key and then goes at the end.
pub open spec fn merge_libraries(base: Seq<Library>, child: Seq<Library>) -> Seq<Library>
    decreases child.len(),
{
    if child.len() == 0 {
        base
    } else {
        without_key(merge_libraries(base, child.drop_last()), lib_key(child.last())).push(
            child.last(),
        )
    }
}

/// Does some library of `libs` have the key `k`?
pub open spec fn has_lib_key(libs: Seq<Library>, k: Seq<char>) -> bool {
    exists|i: int| 0 <= i < libs.len() && lib_key(#[trigger] libs[i]) == k
}

/// The child wins over the parent: the merged list holds only libraries of
/// the parent or the child; every parent library whose key no child library
/// has is kept; every library whose key some child library has is a child
/// library; the child's last library comes last.
pub proof fn lemma_merge_libraries(base: Seq<Library>, child: Seq<Library>)
    ensures
        forall|j: int|
            0 <= j < merge_libraries(base, child).len() ==> base.contains(#[trigger] merge_libraries(base, child)[j])
                || child.contains(merge_libraries(base, child)[j]),
        forall|i: int|
            0 <= i < base.len() && !has_lib_key(child, lib_key(#[trigger] base[i])) ==> merge_libraries(
                base,
                child,
            ).contains(base[i]),
        forall|j: int|
            0 <= j < merge_libraries(base, child).len() && has_lib_key(child, lib_key(#[trigger] merge_libraries(base, child)[j]))
                ==> child.contains(merge_libraries(base, child)[j]),
        child.len() > 0 ==> merge_libraries(base, child).last() == child.last(),
    decreases child.len(),
{
    if child.len() > 0 {
        let init = child.drop_last();
        let l = child.last();
        let k = lib_key(l);
        lemma_merge_libraries(base, init);
        let m = merge_libraries(base, init);
        let p = |x: Library| lib_key(x) != k;
        let f = m.filter(p);
        m.filter_lemma(p);
        let r = f.push(l);
        assert(r == merge_libraries(base, child));
        assert forall|j: int| 0 <= j < r.len() implies base.contains(#[trigger] r[j]) || child.contains(r[j]) by {
            if j < f.len() {
                assert(f.contains(f[j]));
                m.lemma_filter_contains_rev(p, f[j]);
                let t = choose|t: int| 0 <= t < m.len() && m[t] == f[j];
                if !base.contains(m[t]) {
                    let u = choose|u: int| 0 <= u < init.len() && init[u] == m[t];
                    assert(child[u] == init[u]);
                }
            } else {
                assert(r[j] == child[child.len() - 1]);
            }
        }
        assert forall|i: int| 0 <= i < base.len() && !has_lib_key(child, lib_key(#[trigger] base[i])) implies r.contains(base[i]) by {
            assert(!has_lib_key(init, lib_key(base[i]))) by {
                if has_lib_key(init, lib_key(base[i])) {
                    let u = choose|u: int| 0 <= u < init.len() && lib_key(#[trigger] init[u]) == lib_key(base[i]);
                    assert(child[u] == init[u]);
                }
            }
            assert(lib_key(base[i]) != k) by {
                assert(child[child.len() - 1] == l);
            }
            let t = choose|t: int| 0 <= t < m.len() && m[t] == base[i];
            assert(p(m[t]));
            assert(f.contains(base[i]));
            let w = choose|w: int| 0 <= w < f.len() && f[w] == base[i];
            assert(r[w] == base[i]);
        }
        assert forall|j: int| 0 <= j < r.len() && has_lib_key(child, lib_key(#[trigger] r[j])) implies child.contains(r[j]) by {
            if j < f.len() {
                let x = r[j];
                assert(x == f[j]);
                assert(p(f[j]));
                let u = choose|u: int| 0 <= u < child.len() && lib_key(#[trigger] child[u]) == lib_key(x);
                if u == child.len() - 1 {
                    assert(lib_key(x) == k);
                } else {
                    assert(init[u] == child[u]);
                    assert(has_lib_key(init, lib_key(x)));
                    assert(f.contains(x));
                    m.lemma_filter_contains_rev(p, x);
                    let t = choose|t: int| 0 <= t < m.len() && m[t] == x;
                    assert(init.contains(m[t]));
                    let v = choose|v: int| 0 <= v < init.len() && init[v] == m[t];
                    assert(child[v] == init[v]);
                }
            } else {
                assert(r[j] == child[child.len() - 1]);
            }
        }
    }
}

/// Two elements of a filtered sequence sit in the same order in the sequence.
proof fn lemma_filter_pair<A>(s: Seq<A>, p: spec_fn(A) -> bool, i: int, j: int)
    requires
        0 <= i < j < s.filter(p).len(),
    ensures
        exists|a: int, b: int| 0 <= a < b < s.len() && s[a] == s.filter(p)[i] && s[b] == s.filter(p)[j],
    decreases s.len(),
{
    reveal(Seq::filter);
    let init = s.drop_last();
    let fi = init.filter(p);
    if p(s.last()) {
        assert(s.filter(p) == fi.push(s.last()));
        if j < fi.len() {
            lemma_filter_pair(init, p, i, j);
            let (a, b) = choose|a: int, b: int|
                0 <= a < b < init.len() && init[a] == fi[i] && init[b] == fi[j];
            assert(s[a] == init[a] && s[b] == init[b]);
        } else {
            assert(fi.contains(fi[i]));
            init.lemma_filter_contains_rev(p, fi[i]);
            let a = choose|a: int| 0 <= a < init.len() && init[a] == fi[i];
            assert(s[a] == init[a]);
            assert(s[s.len() - 1] == s.filter(p)[j]);
        }
    } else {
        assert(s.filter(p) == fi);
        lemma_filter_pair(init, p, i, j);
        let (a, b) = choose|a: int, b: int| 0 <= a < b < init.len() && init[a] == fi[i] && init[b] == fi[j];
        assert(s[a] == init[a] && s[b] == init[b]);
    }
}

/// No two libraries of `libs` share a key that some library of `child` has.
pub open spec fn child_keys_unique(libs: Seq<Library>, child: Seq<Library>) -> bool {
    forall|i: int, j: int|
        0 <= i < j < libs.len() && lib_key(#[trigger] libs[i]) == lib_key(#[trigger] libs[j]) ==> !has_lib_key(
            child,
            lib_key(libs[i]),
        )
}

/// Merging deduplicates: a key that the child uses occurs once in the
/// merged list (the parent's asm or guava is replaced, never kept beside
/// the child's), whatever duplicates the parent or the child had.
pub proof fn lemma_merge_libraries_dedup(base: Seq<Library>, child: Seq<Library>)
    ensures
        child_keys_unique(merge_libraries(base, child), child),
    decreases child.len(),
{
    if child.len() > 0 {
        let init = child.drop_last();
        let l = child.last();
        let k = lib_key(l);
        lemma_merge_libraries_dedup(base, init);
        let m = merge_libraries(base, init);
        let p = |x: Library| lib_key(x) != k;
        let f = m.filter(p);
        let r = f.push(l);
        assert(r == merge_libraries(base, child));
        assert forall|i: int, j: int|
            0 <= i < j < r.len() && lib_key(#[trigger] r[i]) == lib_key(#[trigger] r[j]) implies !has_lib_key(
            child,
            lib_key(r[i]),
        ) by {
            assert(r[i] == f[i]);
            m.lemma_filter_pred(p, i);
            if j == f.len() {
                assert(r[j] == l);
            } else {
                assert(r[j] == f[j]);
                lemma_filter_pair(m, p, i, j);
                let (a, b) = choose|a: int, b: int| 0 <= a < b < m.len() && m[a] == f[i] && m[b] == f[j];
                assert(lib_key(m[a]) == lib_key(m[b]));
                assert(!has_lib_key(init, lib_key(m[a])));
                if has_lib_key(child, lib_key(r[i])) {
                    let u = choose|u: int| 0 <= u < child.len() && lib_key(#[trigger] child[u]) == lib_key(r[i]);
                    if u < child.len() - 1 {
                        assert(init[u] == child[u]);
                    }
                }
            }
        }
    }
}

pub open spec fn raw_client(raw: RawVersionInfo) -> Option<DownloadInfo> {
    match raw.downloads {
        Some(d) => d.client,
        None => None,
    }
}

pub open spec fn args_game(a: Option<Arguments>) -> Seq<ArgEntry> {
    match a {
        Some(a) => a.game@,
        None => Seq::<ArgEntry>::empty(),
    }
}

pub open spec fn args_jvm(a: Option<Arguments>) -> Seq<ArgEntry> {
    match a {
        Some(a) => a.jvm@,
        None => Seq::<ArgEntry>::empty(),
    }
}

pub open spec fn parent_args(p: Option<ResolvedVersion>) -> Option<Arguments> {
    match p {
        Some(p) => Some(p.arguments),
        None => None,
    }
}

pub open spec fn parent_libs(p: Option<ResolvedVersion>) -> Seq<Library> {
    match p {
        Some(p) => p.libraries@,
        None => Seq::<Library>::empty(),
    }
}

/// The message tail of the error a merge ends in, if it does.
pub open spec fn merge_missing(raw: RawVersionInfo, parent: Option<ResolvedVersion>) -> Option<Seq<char>> {
    if raw.main_class is None && parent is None {
        Some(": falta mainClass"@)
    } else if raw.asset_index is None && parent is None {
        Some(": falta assetIndex"@)
    } else {
        None
    }
}

/// `r` is `raw` laid over `parent` under the name `id`: the child's values win,
/// the parent's fill the gaps, arguments and libraries are combined.
pub open spec fn merged_from(
    id: Seq<char>,
    raw: RawVersionInfo,
    parent: Option<ResolvedVersion>,
    r: ResolvedVersion,
) -> bool {
    &&& r.id@ == id
    &&& r.main_class == match raw.main_class {
        Some(m) => m,
        None => parent->0.main_class,
    }
    &&& r.arguments.game@ == args_game(parent_args(parent)) + args_game(raw.arguments)
    &&& r.arguments.jvm@ == args_jvm(parent_args(parent)) + args_jvm(raw.arguments)
    &&& r.libraries@ == merge_libraries(parent_libs(parent), raw.libraries@)
    &&& r.client_download == match raw_client(raw) {
        Some(c) => Some(c),
        None => match parent {
            Some(p) => p.client_download,
            None => None,
        },
    }
    &&& r.asset_index == match raw.asset_index {
        Some(a) => a,
        None => parent->0.asset_index,
    }
    &&& r.assets@ == match raw.assets {
        Some(a) => a@,
        None => match parent {
            Some(p) => p.assets@,
            None => r.asset_index.id@,
        },
    }
    &&& r.java_major_version == match raw.java_version {
        Some(j) => j.major_version,
        None => match parent {
            Some(p) => p.java_major_version,
            None => 17,
        },
    }
}

/// What merging `raw` over `parent` gives: the merged version, or the error
/// naming what is missing.
pub open spec fn merge_outcome(
    id: Seq<char>,
    raw: RawVersionInfo,
    parent: Option<ResolvedVersion>,
    res: Result<ResolvedVersion, Error>,
) -> bool {
    match merge_missing(raw, parent) {
        Some(msg) => res matches Err(Error::Other(m)) && m@ == id + msg,
        None => res matches Ok(r) && merged_from(id, raw, parent, r),
    }
}

/// Key `key` removed from `libs`.
fn retain_other_keys(libs: Vec<Library>, key: &String) -> (r: Vec<Library>)
    ensures
        r@ == without_key(libs@, key@),
{
    let ghost orig = libs@;
    let mut out: Vec<Library> = Vec::new();
    for lib in it: libs.into_iter()
        invariant
            it.seq() == orig,
            out@ == without_key(orig.take(it.index() as int), key@),
    {
        let ghost i = it.index();
        proof {
            assert(orig.take(i + 1).drop_last() =~= orig.take(i as int));
            assert(orig.take(i + 1).last() == lib);
        }
        let k = lib.coordinate_key();
        if !crate::text::str_eq(k.as_str(), key.as_str()) {
            out.push(lib);
        }
        proof {
            reveal_with_fuel(Seq::<Library>::filter, 1);
        }
    }
    proof {
        assert(orig.take(orig.len() as int) =~= orig);
    }
    out
}

/// Lays the child's libraries over `base`.
fn merge_library_lists(base: Vec<Library>, child: Vec<Library>) -> (r: Vec<Library>)
    ensures
        r@ == merge_libraries(base@, child@),
{
    let ghost orig = child@;
    let mut libs = base;
    for lib in it: child.into_iter()
        invariant
            it.seq() == orig,
            libs@ == merge_libraries(base@, orig.take(it.index() as int)),
    {
        let ghost i = it.index();
        proof {
            assert(orig.take(i + 1).drop_last() =~= orig.take(i as int));
            assert(orig.take(i + 1).last() == lib);
        }
        let key = lib.coordinate_key();
        libs = retain_other_keys(libs, &key);
        libs.push(lib);
    }
    proof {
        assert(orig.take(orig.len() as int) =~= orig);
    }
    libs
}

fn append_entries(a: Vec<ArgEntry>, b: Vec<ArgEntry>) -> (r: Vec<ArgEntry>)
    ensures
        r@ == a@ + b@,
{
    let mut a = a;
    let mut b = b;
    a.append(&mut b);
    a
}

/// Lays the version file `raw` over its resolved parent (the child's values
/// win, the parent's fill the gaps) under the name `version_id`.
pub fn merge_version(version_id: &str, raw: RawVersionInfo, parent: Option<ResolvedVersion>) -> (res:
    Result<ResolvedVersion, Error>)
    ensures
        merge_outcome(version_id@, raw, parent, res),
{
    let ghost raw0 = raw;
    let ghost parent0 = parent;
    let RawVersionInfo {
        id: _,
        main_class,
        arguments,
        libraries,
        downloads,
        asset_index,
        assets,
        java_version,
        inherits_from: _,
    } = raw;
    let (p_main, p_args, p_libs, p_client, p_index, p_assets, p_java) = match parent {
        Some(p) => (
            Some(p.main_class),
            Some(p.arguments),
            p.libraries,
            p.client_download,
            Some(p.asset_index),
            Some(p.assets),
            Some(p.java_major_version),
        ),
        None => (None, None, Vec::new(), None, None, None, None),
    };
    assert(p_libs@ == parent_libs(parent0));
    let main_class = match main_class {
        Some(m) => m,
        None => match p_main {
            Some(m) => m,
            None => {
                return Err(Error::Other(concat2(version_id, ": falta mainClass")));
            },
        },
    };
    let base_args = match p_args {
        Some(a) => a,
        None => Arguments::empty(),
    };
    let arguments = match arguments {
        Some(child) => {
            let Arguments { game: base_game, jvm: base_jvm } = base_args;
            let Arguments { game: child_game, jvm: child_jvm } = child;
            Arguments {
                game: append_entries(base_game, child_game),
                jvm: append_entries(base_jvm, child_jvm),
            }
        },
        None => base_args,
    };
    let libraries = merge_library_lists(p_libs, libraries);
    let client_download = match downloads {
        Some(d) => match d.client {
            Some(c) => Some(c),
            None => p_client,
        },
        None => p_client,
    };
    let asset_index = match asset_index {
        Some(a) => a,
        None => match p_index {
            Some(a) => a,
            None => {
                return Err(Error::Other(concat2(version_id, ": falta assetIndex")));
            },
        },
    };
    let assets = match assets {
        Some(a) => a,
        None => match p_assets {
            Some(a) => a,
            None => asset_index.id.clone(),
        },
    };
    let java_major_version = match java_version {
        Some(j) => j.major_version,
        None => match p_java {
            Some(j) => j,
            None => 17,
        },
    };
    let r = ResolvedVersion {
        id: owned(version_id),
        main_class,
        arguments,
        libraries,
        client_download,
        asset_index,
        assets,
        java_major_version,
    };
    proof {
        assert(r.arguments.game@ =~= args_game(parent_args(parent0)) + args_game(raw0.arguments));
        assert(r.arguments.jvm@ =~= args_jvm(parent_args(parent0)) + args_jvm(raw0.arguments));
    }
    Ok(r)
}

/// A version file chain whose every file but the last names its parent.
pub open spec fn is_inheritance_chain(chain: Seq<RawVersionInfo>) -> bool {
    chain.len() >= 1 && forall|i: int|
        0 <= i < chain.len() - 1 ==> (#[trigger] chain[i]).inherits_from is Some
}

/// The name under which the last file of the chain (the root) is resolved.
pub open spec fn root_id(id: Seq<char>, chain: Seq<RawVersionInfo>) -> Seq<char>
    decreases chain.len(),
{
    if chain.len() <= 1 {
        id
    } else {
        root_id(chain[0].inherits_from->0@, chain.drop_first())
    }
}

/// The error resolving the chain ends in: only the root can lack `mainClass`
/// or `assetIndex`, since every other file has a parent to take them from.
pub open spec fn chain_failure(id: Seq<char>, chain: Seq<RawVersionInfo>) -> Option<Seq<char>> {
    match merge_missing(chain.last(), None) {
        Some(m) => Some(root_id(id, chain) + m),
        None => None,
    }
}

/// `mainClass` of the nearest file that has one.
pub open spec fn chain_main_class(chain: Seq<RawVersionInfo>) -> String
    decreases chain.len(),
{
    if chain.len() <= 1 || chain[0].main_class is Some {
        chain[0].main_class->0
    } else {
        chain_main_class(chain.drop_first())
    }
}

/// Game arguments from the root down to the requested version.
pub open spec fn chain_game(chain: Seq<RawVersionInfo>) -> Seq<ArgEntry>
    decreases chain.len(),
{
    if chain.len() <= 1 {
        args_game(chain[0].arguments)
    } else {
        chain_game(chain.drop_first()) + args_game(chain[0].arguments)
    }
}

/// JVM arguments from the root down to the requested version.
pub open spec fn chain_jvm(chain: Seq<RawVersionInfo>) -> Seq<ArgEntry>
    decreases chain.len(),
{
    if chain.len() <= 1 {
        args_jvm(chain[0].arguments)
    } else {
        chain_jvm(chain.drop_first()) + args_jvm(chain[0].arguments)
    }
}

/// Libraries of the root, then each child's laid over them in turn.
pub open spec fn chain_libraries(chain: Seq<RawVersionInfo>) -> Seq<Library>
    decreases chain.len(),
{
    if chain.len() <= 1 {
        merge_libraries(Seq::<Library>::empty(), chain[0].libraries@)
    } else {
        merge_libraries(chain_libraries(chain.drop_first()), chain[0].libraries@)
    }
}

/// Client download of the nearest file that has one.
pub open spec fn chain_client(chain: Seq<RawVersionInfo>) -> Option<DownloadInfo>
    decreases chain.len(),
{
    if chain.len() <= 1 || raw_client(chain[0]) is Some {
        raw_client(chain[0])
    } else {
        chain_client(chain.drop_first())
    }
}

/// Asset index of the nearest file that has one.
pub open spec fn chain_asset_index(chain: Seq<RawVersionInfo>) -> AssetIndexRef
    decreases chain.len(),
{
    if chain.len() <= 1 || chain[0].asset_index is Some {
        chain[0].asset_index->0
    } else {
        chain_asset_index(chain.drop_first())
    }
}

/// `assets` of the nearest file that has it, else the id of the root's asset index.
pub open spec fn chain_assets(chain: Seq<RawVersionInfo>) -> Seq<char>
    decreases chain.len(),
{
    match chain[0].assets {
        Some(a) => a@,
        None => if chain.len() <= 1 {
            chain[0].asset_index->0.id@
        } else {
            chain_assets(chain.drop_first())
        },
    }
}

/// Java major version of the nearest file that names one, else 17.
pub open spec fn chain_java(chain: Seq<RawVersionInfo>) -> u32
    decreases chain.len(),
{
    match chain[0].java_version {
        Some(j) => j.major_version,
        None => if chain.len() <= 1 {
            17
        } else {
            chain_java(chain.drop_first())
        },
    }
}

/// `r` is the resolution of the chain under the name `id`.
pub open spec fn resolved_chain(id: Seq<char>, chain: Seq<RawVersionInfo>, r: ResolvedVersion) -> bool {
    &&& r.id@ == id
    &&& r.main_class == chain_main_class(chain)
    &&& r.arguments.game@ == chain_game(chain)
    &&& r.arguments.jvm@ == chain_jvm(chain)
    &&& r.libraries@ == chain_libraries(chain)
    &&& r.client_download == chain_client(chain)
    &&& r.asset_index == chain_asset_index(chain)
    &&& r.assets@ == chain_assets(chain)
    &&& r.java_major_version == chain_java(chain)
}

/// Resolves `version_id` from its version file and the files it inherits
/// from (`chain[0]` is the file of `version_id`, `chain[i + 1]` the parent of
/// `chain[i]`): each child is laid over its resolved parent, so the nearest
/// file's values win and arguments and libraries accumulate from the root.
pub fn resolve_version(version_id: &str, chain: Vec<RawVersionInfo>) -> (res: Result<ResolvedVersion, Error>)
    requires
        is_inheritance_chain(chain@),
    ensures
        match chain_failure(version_id@, chain@) {
            Some(msg) => res matches Err(Error::Other(m)) && m@ == msg,
            None => res matches Ok(r) && resolved_chain(version_id@, chain@, r),
        },
    decreases chain@.len(),
{
    let ghost c0 = chain@;
    let mut rest = chain;
    let raw = rest.remove(0);
    assert(rest@ =~= c0.drop_first());
    assert(raw == c0[0]);
    if rest.len() == 0 {
        assert(c0.last() == c0[0]);
        let res = merge_version(version_id, raw, None);
        proof {
            if res is Ok {
                assert(res->Ok_0.arguments.game@ =~= chain_game(c0));
                assert(res->Ok_0.arguments.jvm@ =~= chain_jvm(c0));
            }
        }
        res
    } else {
        let parent_id = match &raw.inherits_from {
            Some(p) => p.clone(),
            None => {
                assert(false);
                return Err(Error::Other(String::new()));
            },
        };
        proof {
            assert forall|i: int| 0 <= i < rest@.len() - 1 implies (#[trigger] rest@[i]).inherits_from is Some by {
                assert(rest@[i] == c0[i + 1]);
            }
            assert(c0.drop_first().last() == c0.last());
        }
        let pres = resolve_version(parent_id.as_str(), rest);
        match pres {
            Ok(p) => {
                let res = merge_version(version_id, raw, Some(p));
                proof {
                    if res is Ok {
                        assert(res->Ok_0.arguments.game@ =~= chain_game(c0));
                        assert(res->Ok_0.arguments.jvm@ =~= chain_jvm(c0));
                    }
                }
                res
            },
            Err(e) => Err(e),
        }
    }
}

} // verus!
