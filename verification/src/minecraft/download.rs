//! What to download, where to put it, and how to tell a good copy from a bad one.
use super::rules::{spec_rules_allow, Host, OsKind};
use super::version_manifest::{
    spec_library_allowed, spec_matches_arch, spec_native_classifier, DownloadInfo, Library, ResolvedVersion,
};
use crate::error::Error;
use crate::paths::{assets_dir, libraries_dir, version_jar_path, FsPath};
use crate::strmap::StrMap;
use crate::text::{
    concat2, concat3, eq_ignore_ascii_case, owned, push_char, replace_char, spec_eq_ignore_ascii_case,
    spec_hex_lower, spec_replace_char, spec_split, split_char, views,
};
use sha1::Digest;
use vstd::prelude::*;

verus! {

/// A path as a value: base directory and components.
pub struct PathView {
    pub root: Seq<char>,
    pub comps: Seq<Seq<char>>,
}

impl View for FsPath {
    type V = PathView;

    open spec fn view(&self) -> PathView {
        PathView { root: self.root@, comps: self.comps() }
    }
}

/// `p` with one more component.
pub open spec fn path_join(p: PathView, c: Seq<char>) -> PathView {
    PathView { root: p.root, comps: p.comps.push(c) }
}

/// A file the launcher must have: where it comes from, where it goes, and
/// what it must look like (the checks that are `None` are skipped).
#[derive(Debug)]
pub struct FileRequest {
    pub url: String,
    pub dest: FsPath,
    pub sha1: Option<String>,
    pub size: Option<u64>,
}

pub struct FileRequestView {
    pub url: Seq<char>,
    pub dest: PathView,
    pub sha1: Option<Seq<char>>,
    pub size: Option<u64>,
}

pub open spec fn opt_view(o: Option<String>) -> Option<Seq<char>> {
    match o {
        Some(s) => Some(s@),
        None => None,
    }
}

impl View for FileRequest {
    type V = FileRequestView;

    open spec fn view(&self) -> FileRequestView {
        FileRequestView { url: self.url@, dest: self.dest@, sha1: opt_view(self.sha1), size: self.size }
    }
}

// ---------------------------------------------------------------------------
// Hashes
// ---------------------------------------------------------------------------

/// The SHA-1 digest of `data` (20 bytes), as the `sha1` crate computes it.
pub uninterp spec fn sha1_digest_of(data: Seq<u8>) -> Seq<u8>;

/// `sha1::Sha1::digest`: the SHA-1 digest of the bytes.
#[verifier::external_body]
fn sha1_digest(data: &[u8]) -> (d: Vec<u8>)
    ensures
        d@ == sha1_digest_of(data@),
{
    sha1::Sha1::digest(data).to_vec()
}

/// `hex::encode`: two lower-case hexadecimal digits per byte, high nibble first.
#[verifier::external_body]
fn hex_encode(data: &[u8]) -> (s: String)
    ensures
        s@ == spec_hex_lower(data@),
{
    hex::encode(data)
}

/// Lower-case hexadecimal SHA-1 of the contents of a file.
pub fn sha1_hex(data: &[u8]) -> (s: String)
    ensures
        s@ == spec_hex_lower(sha1_digest_of(data@)),
{
    let d = sha1_digest(data);
    hex_encode(d.as_slice())
}

/// Is the file on disk already the right one? It must exist, have the
/// expected size (when one is given) and the expected SHA-1 (when one is
/// given; hexadecimal case does not matter). `actual_size` and `actual_sha1`
/// are `None` when they could not be read.
pub open spec fn spec_file_matches(
    exists: bool,
    actual_size: Option<u64>,
    actual_sha1: Option<Seq<char>>,
    expected_sha1: Option<Seq<char>>,
    expected_size: Option<u64>,
) -> bool {
    &&& exists
    &&& (expected_size matches Some(n) ==> actual_size == Some(n))
    &&& (expected_sha1 matches Some(e) ==> actual_sha1 matches Some(a) && spec_eq_ignore_ascii_case(a, e))
}

pub fn file_matches(
    exists: bool,
    actual_size: Option<u64>,
    actual_sha1: Option<&str>,
    expected_sha1: Option<&str>,
    expected_size: Option<u64>,
) -> (r: bool)
    ensures
        r == spec_file_matches(
            exists,
            actual_size,
            match actual_sha1 {
                Some(a) => Some(a@),
                None => None,
            },
            match expected_sha1 {
                Some(e) => Some(e@),
                None => None,
            },
            expected_size,
        ),
{
    if !exists {
        return false;
    }
    if let Some(size) = expected_size {
        match actual_size {
            Some(n) => {
                if n != size {
                    return false;
                }
            },
            None => return false,
        }
    }
    match expected_sha1 {
        Some(expected) => match actual_sha1 {
            Some(actual) => eq_ignore_ascii_case(actual, expected),
            None => false,
        },
        None => true,
    }
}

/// After a download: accept the file, or report a checksum mismatch naming
/// the destination (`dest_display`), the expected and the actual SHA-1.
pub fn check_download(dest_display: &str, expected_sha1: Option<&str>, actual_sha1: &str) -> (r: Result<(), Error>)
    ensures
        match expected_sha1 {
            None => r is Ok,
            Some(e) => if spec_eq_ignore_ascii_case(actual_sha1@, e@) {
                r is Ok
            } else {
                r matches Err(Error::ChecksumMismatch { path, expected, actual }) && path@
                    == dest_display@ && expected@ == e@ && actual@ == actual_sha1@
            },
        },
{
    match expected_sha1 {
        None => Ok(()),
        Some(expected) => {
            if eq_ignore_ascii_case(actual_sha1, expected) {
                Ok(())
            } else {
                Err(
                    Error::ChecksumMismatch {
                        path: owned(dest_display),
                        expected: owned(expected),
                        actual: owned(actual_sha1),
                    },
                )
            }
        },
    }
}

// ---------------------------------------------------------------------------
// Maven paths
// ---------------------------------------------------------------------------

/// Relative path of a jar in a Maven repository, from "group:artifact:version[:classifier]":
/// `group/with/slashes/artifact/version/artifact-version[-classifier].jar`; an
/// extra classifier replaces the coordinate's own.
pub open spec fn spec_maven_path(coordinate: Seq<char>, extra: Option<Seq<char>>) -> Seq<char> {
    let parts = spec_split(coordinate, ':');
    let group_path = spec_replace_char(parts[0], '.', '/');
    let artifact = parts[1];
    let version = parts[2];
    let classifier = match extra {
        Some(c) => Some(c),
        None => if parts.len() > 3 {
            Some(parts[3])
        } else {
            None
        },
    };
    let stem = group_path + "/"@ + artifact + "/"@ + version + "/"@ + artifact + "-"@ + version;
    match classifier {
        Some(c) => stem + "-"@ + c + ".jar"@,
        None => stem + ".jar"@,
    }
}

/// A coordinate with at least group, artifact and version.
pub open spec fn is_full_coordinate(coordinate: Seq<char>) -> bool {
    spec_split(coordinate, ':').len() >= 3
}

pub fn maven_path(coordinate: &str, extra_classifier: Option<&str>) -> (r: String)
    requires
        is_full_coordinate(coordinate@),
    ensures
        r@ == spec_maven_path(
            coordinate@,
            match extra_classifier {
                Some(c) => Some(c@),
                None => None,
            },
        ),
{
    let parts = split_char(coordinate, ':');
    let group_path = replace_char(parts[0].as_str(), '.', '/');
    let artifact = parts[1].as_str();
    let version = parts[2].as_str();
    let mut r = concat3(group_path.as_str(), "/", artifact);
    r.append("/");
    r.append(version);
    r.append("/");
    r.append(artifact);
    r.append("-");
    r.append(version);
    match extra_classifier {
        Some(c) => {
            r.append("-");
            r.append(c);
        },
        None => {
            if parts.len() > 3 {
                r.append("-");
                r.append(parts[3].as_str());
            }
        },
    }
    r.append(".jar");
    r
}

/// `s` without its trailing `c` characters (`str::trim_end_matches` with a char).
pub open spec fn spec_trim_end_char(s: Seq<char>, c: char) -> Seq<char>
    decreases s.len(),
{
    if s.len() > 0 && s.last() == c {
        spec_trim_end_char(s.drop_last(), c)
    } else {
        s
    }
}

pub fn trim_end_char(s: &str, c: char) -> (r: String)
    ensures
        r@ == spec_trim_end_char(s@, c),
{
    let v = crate::text::chars_of(s);
    let mut n = v.len();
    assert(v@.take(n as int) =~= v@);
    while n > 0 && v[n - 1] == c
        invariant
            n <= v.len(),
            spec_trim_end_char(v@, c) == spec_trim_end_char(v@.take(n as int), c),
        decreases n,
    {
        assert(v@.take(n as int).drop_last() =~= v@.take(n - 1));
        n -= 1;
    }
    crate::text::string_from_range(&v, 0, n)
}

/// Does finding this library's artifact go through its Maven coordinate?
pub open spec fn artifact_uses_coordinate(lib: Library) -> bool {
    match lib.downloads {
        Some(d) if d.artifact is Some => d.artifact->0.path is None,
        _ => lib.url is Some,
    }
}

/// Where the library's jar comes from and its path in the libraries folder:
/// the `downloads.artifact` entry when there is one (its `path`, or the Maven
/// path of the name), else the old form `url` + Maven path, with no checksum
/// and no size to check.
pub open spec fn artifact_download_matches(lib: Library, r: Option<(String, DownloadInfo)>) -> bool {
    match lib.downloads {
        Some(d) if d.artifact is Some => {
            let a = d.artifact->0;
            r matches Some((p, info)) && info == a && p@ == match a.path {
                Some(p) => p@,
                None => spec_maven_path(lib.name@, None),
            }
        },
        _ => match lib.url {
            Some(base) => r matches Some((p, info)) && p@ == spec_maven_path(lib.name@, None)
                && info.url@ == spec_trim_end_char(base@, '/') + "/"@ + p@ && info.sha1@.len() == 0
                && info.size == 0 && info.path is None,
            None => r is None,
        },
    }
}

pub fn library_artifact_download(lib: &Library) -> (r: Option<(String, DownloadInfo)>)
    requires
        artifact_uses_coordinate(*lib) ==> is_full_coordinate(lib.name@),
    ensures
        artifact_download_matches(*lib, r),
{
    if let Some(downloads) = &lib.downloads {
        if let Some(artifact) = &downloads.artifact {
            let path = match &artifact.path {
                Some(p) => p.clone(),
                None => maven_path(lib.name.as_str(), None),
            };
            return Some((path, artifact.duplicate()));
        }
    }
    let base_url = match &lib.url {
        Some(u) => u,
        None => return None,
    };
    let path = maven_path(lib.name.as_str(), None);
    let base = trim_end_char(base_url.as_str(), '/');
    let url = concat3(base.as_str(), "/", path.as_str());
    Some((path, DownloadInfo { url, sha1: String::new(), size: 0, path: None }))
}


// ---------------------------------------------------------------------------
// File names inside a path component (`Path::file_name`, `Path::with_extension`)
// ---------------------------------------------------------------------------

/// Path separators: `/`, and also `\` on Windows.
pub open spec fn is_sep(c: char, host: Host) -> bool {
    c == '/' || (host.os == OsKind::Windows && c == '\\')
}

fn sep_char(c: char, host: &Host) -> (r: bool)
    ensures
        r == is_sep(c, *host),
{
    c == '/' || (host.os == OsKind::Windows && c == '\\')
}

/// The text with trailing separators and trailing `.` segments removed
/// (they do not count as components).
pub open spec fn strip_trailing(s: Seq<char>, host: Host) -> Seq<char>
    decreases s.len(),
{
    if s.len() > 0 && (is_sep(s.last(), host) || (s.last() == '.' && (s.len() == 1 || is_sep(
        s[s.len() - 2],
        host,
    )))) {
        strip_trailing(s.drop_last(), host)
    } else {
        s
    }
}

/// Index just after the last separator of `t` (0 when it has none).
pub open spec fn last_sep_end(t: Seq<char>, host: Host) -> nat
    decreases t.len(),
{
    if t.len() == 0 {
        0
    } else if is_sep(t.last(), host) {
        t.len()
    } else {
        last_sep_end(t.drop_last(), host)
    }
}

/// The final component's name (`Path::file_name`), when it is an ordinary name.
pub open spec fn spec_file_name(s: Seq<char>, host: Host) -> Option<Seq<char>> {
    let t = strip_trailing(s, host);
    let name = t.skip(last_sep_end(t, host) as int);
    if name.len() == 0 || name == ".."@ {
        None
    } else {
        Some(name)
    }
}

/// Index of the last `.` of `name`, or -1.
pub open spec fn last_dot(name: Seq<char>) -> int
    decreases name.len(),
{
    if name.len() == 0 {
        -1
    } else if name.last() == '.' {
        name.len() - 1
    } else {
        last_dot(name.drop_last())
    }
}

proof fn lemma_last_dot_bound(name: Seq<char>)
    ensures
        -1 <= last_dot(name) < name.len(),
    decreases name.len(),
{
    if name.len() > 0 && name.last() != '.' {
        lemma_last_dot_bound(name.drop_last());
    }
}

/// `Path::extension` of a file name: what follows the last dot, unless the
/// only dot starts the name (or there is none).
pub open spec fn spec_extension(name: Seq<char>) -> Option<Seq<char>> {
    if last_dot(name) <= 0 {
        None
    } else {
        Some(name.skip(last_dot(name) + 1))
    }
}

/// `Path::file_stem` of a file name.
pub open spec fn spec_stem(name: Seq<char>) -> Seq<char> {
    if last_dot(name) <= 0 {
        name
    } else {
        name.take(last_dot(name))
    }
}

/// The component text with its file name's extension replaced by `ext`
/// (`Path::with_extension`): everything after the stem goes, then `.` and
/// `ext` follow unless `ext` is empty. Text without a file name stays as it is.
pub open spec fn spec_with_extension(s: Seq<char>, host: Host, ext: Seq<char>) -> Seq<char> {
    let t = strip_trailing(s, host);
    let start = last_sep_end(t, host) as int;
    if spec_file_name(s, host) is None {
        s
    } else if ext.len() == 0 {
        t.take(start) + spec_stem(t.skip(start))
    } else {
        t.take(start) + spec_stem(t.skip(start)) + "."@ + ext
    }
}

proof fn lemma_strip_trailing_prefix(s: Seq<char>, host: Host)
    ensures
        strip_trailing(s, host).len() <= s.len(),
        strip_trailing(s, host) == s.take(strip_trailing(s, host).len() as int),
    decreases s.len(),
{
    if s.len() > 0 && (is_sep(s.last(), host) || (s.last() == '.' && (s.len() == 1 || is_sep(
        s[s.len() - 2],
        host,
    )))) {
        lemma_strip_trailing_prefix(s.drop_last(), host);
        let t = strip_trailing(s.drop_last(), host);
        assert(s.drop_last().take(t.len() as int) =~= s.take(t.len() as int));
    } else {
        assert(s.take(s.len() as int) =~= s);
    }
}

/// Length of `strip_trailing(v[..n])`.
fn strip_trailing_len(v: &Vec<char>, host: &Host) -> (n: usize)
    ensures
        n <= v.len(),
        strip_trailing(v@, *host) == v@.take(n as int),
{
    let mut n = v.len();
    assert(v@.take(n as int) =~= v@);
    while n > 0 && (sep_char(v[n - 1], host) || (v[n - 1] == '.' && (n == 1 || sep_char(v[n - 2], host))))
        invariant
            n <= v.len(),
            strip_trailing(v@, *host) == strip_trailing(v@.take(n as int), *host),
        decreases n,
    {
        proof {
            let w = v@.take(n as int);
            assert(w.drop_last() =~= v@.take(n - 1));
            assert(w.last() == v@[n - 1]);
            if n >= 2 {
                assert(w[w.len() - 2] == v@[n - 2]);
            }
        }
        n -= 1;
    }
    proof {
        let w = v@.take(n as int);
        if n > 0 {
            assert(w.last() == v@[n - 1]);
        }
        if n >= 2 {
            assert(w[w.len() - 2] == v@[n - 2]);
        }
    }
    n
}

/// Start of the last segment of `v[..n]`.
fn segment_start(v: &Vec<char>, n: usize, host: &Host) -> (k: usize)
    requires
        n <= v.len(),
    ensures
        k <= n,
        k == last_sep_end(v@.take(n as int), *host),
{
    let mut k = n;
    while k > 0 && !sep_char(v[k - 1], host)
        invariant
            k <= n <= v.len(),
            last_sep_end(v@.take(n as int), *host) == last_sep_end(v@.take(k as int), *host),
        decreases k,
    {
        proof {
            assert(v@.take(k as int).drop_last() =~= v@.take(k - 1));
            assert(v@.take(k as int).last() == v@[k - 1]);
        }
        k -= 1;
    }
    proof {
        if k > 0 {
            assert(v@.take(k as int).last() == v@[k - 1]);
        }
    }
    k
}

/// Index of the last `.` in `v[from..to]`, relative to `from`, or `None`.
fn last_dot_in(v: &Vec<char>, from: usize, to: usize) -> (r: Option<usize>)
    requires
        from <= to <= v.len(),
    ensures
        match r {
            Some(d) => d < to - from && last_dot(v@.subrange(from as int, to as int)) == d as int,
            None => last_dot(v@.subrange(from as int, to as int)) == -1,
        },
{
    let mut j = to;
    assert(v@.subrange(from as int, j as int) =~= v@.subrange(from as int, to as int));
    while j > from
        invariant
            from <= j <= to <= v.len(),
            last_dot(v@.subrange(from as int, to as int)) == last_dot(v@.subrange(from as int, j as int)),
        decreases j,
    {
        let ghost w = v@.subrange(from as int, j as int);
        assert(w.last() == v@[j - 1]);
        if v[j - 1] == '.' {
            proof {
                lemma_last_dot_bound(v@.subrange(from as int, to as int));
            }
            return Some(j - 1 - from);
        }
        assert(w.drop_last() =~= v@.subrange(from as int, j - 1));
        j -= 1;
    }
    None
}

/// Does the component text end in an ordinary file name?
pub fn has_file_name(s: &str, host: &Host) -> (r: bool)
    ensures
        r == spec_file_name(s@, *host) is Some,
{
    let v = crate::text::chars_of(s);
    let n = strip_trailing_len(&v, host);
    let k = segment_start(&v, n, host);
    proof {
        assert(v@.take(n as int).skip(k as int) =~= v@.subrange(k as int, n as int));
    }
    if n == k {
        return false;
    }
    if n - k == 2 && v[k] == '.' && v[k + 1] == '.' {
        proof {
            reveal_strlit("..");
            assert(v@.subrange(k as int, n as int) =~= ".."@);
        }
        return false;
    }
    proof {
        reveal_strlit("..");
        if v@.subrange(k as int, n as int) == ".."@ {
            assert(v@.subrange(k as int, n as int)[0] == v@[k as int]);
            assert(v@.subrange(k as int, n as int)[1] == v@[k + 1]);
        }
    }
    true
}

/// `Path::file_name` of the text, or the empty text when it has none.
pub fn file_name_or_empty(s: &str, host: &Host) -> (r: String)
    ensures
        r@ == match spec_file_name(s@, *host) {
            Some(n) => n,
            None => Seq::<char>::empty(),
        },
{
    let v = crate::text::chars_of(s);
    let n = strip_trailing_len(&v, host);
    let k = segment_start(&v, n, host);
    proof {
        assert(v@.take(n as int).skip(k as int) =~= v@.subrange(k as int, n as int));
    }
    if has_file_name(s, host) {
        crate::text::string_from_range(&v, k, n)
    } else {
        String::new()
    }
}

/// The component text with its extension replaced by `ext` (`Path::with_extension`).
pub fn with_extension(s: &str, host: &Host, ext: &str) -> (r: String)
    ensures
        r@ == spec_with_extension(s@, *host, ext@),
{
    if !has_file_name(s, host) {
        return owned(s);
    }
    let v = crate::text::chars_of(s);
    let n = strip_trailing_len(&v, host);
    let k = segment_start(&v, n, host);
    let ghost t = v@.take(n as int);
    proof {
        assert(t.skip(k as int) =~= v@.subrange(k as int, n as int));
        assert(t.take(k as int) =~= v@.subrange(0, k as int));
    }
    let stem_end = match last_dot_in(&v, k, n) {
        Some(d) => if d == 0 {
            n
        } else {
            k + d
        },
        None => n,
    };
    proof {
        let name = v@.subrange(k as int, n as int);
        if last_dot(name) <= 0 {
            assert(spec_stem(name) == name);
            assert(v@.subrange(0, stem_end as int) =~= v@.subrange(0, k as int) + name);
        } else {
            assert(spec_stem(name) =~= v@.subrange(k as int, stem_end as int));
            assert(v@.subrange(0, stem_end as int) =~= v@.subrange(0, k as int) + v@.subrange(
                k as int,
                stem_end as int,
            ));
        }
    }
    let mut r = crate::text::string_from_range(&v, 0, stem_end);
    if ext.unicode_len() != 0 {
        r.append(".");
        r.append(ext);
    }
    r
}

/// The extension the temporary copy of a download gets: the file's own
/// extension (or "tmp") followed by ".part".
pub open spec fn spec_part_extension(s: Seq<char>, host: Host) -> Seq<char> {
    match spec_extension(spec_file_name(s, host)->0) {
        Some(e) => e + ".part"@,
        None => "tmp.part"@,
    }
}

proof fn lemma_last_dot_is_dot(name: Seq<char>)
    ensures
        last_dot(name) >= 0 ==> name[last_dot(name)] == '.',
    decreases name.len(),
{
    if name.len() > 0 && name.last() != '.' {
        lemma_last_dot_is_dot(name.drop_last());
        lemma_last_dot_bound(name.drop_last());
        if last_dot(name) >= 0 {
            assert(name[last_dot(name)] == name.drop_last()[last_dot(name)]);
        }
    }
}

proof fn lemma_last_sep_end_bound(t: Seq<char>, host: Host)
    ensures
        last_sep_end(t, host) <= t.len(),
    decreases t.len(),
{
    if t.len() > 0 && !is_sep(t.last(), host) {
        lemma_last_sep_end_bound(t.drop_last(), host);
    }
}

/// What `strip_trailing` removes is made of separators and dots.
proof fn lemma_stripped_tail(s: Seq<char>, host: Host)
    ensures
        forall|j: int|
            strip_trailing(s, host).len() <= j < s.len() ==> is_sep(#[trigger] s[j], host) || s[j] == '.',
    decreases s.len(),
{
    if s.len() > 0 && (is_sep(s.last(), host) || (s.last() == '.' && (s.len() == 1 || is_sep(
        s[s.len() - 2],
        host,
    )))) {
        lemma_stripped_tail(s.drop_last(), host);
        lemma_strip_trailing_prefix(s.drop_last(), host);
        assert forall|j: int| strip_trailing(s, host).len() <= j < s.len() implies is_sep(
            #[trigger] s[j],
            host,
        ) || s[j] == '.' by {
            if j < s.len() - 1 {
                assert(s[j] == s.drop_last()[j]);
            }
        }
    }
}

/// The temporary name of a download is never the name of the file itself:
/// it is the name with `.part` (or `.tmp.part`) after it.
proof fn lemma_part_name_differs(s: Seq<char>, host: Host)
    requires
        spec_file_name(s, host) is Some,
    ensures
        spec_with_extension(s, host, spec_part_extension(s, host)) != s,
{
    let t = strip_trailing(s, host);
    let start = last_sep_end(t, host) as int;
    let name = t.skip(start);
    lemma_strip_trailing_prefix(s, host);
    lemma_stripped_tail(s, host);
    lemma_last_sep_end_bound(t, host);
    lemma_last_dot_bound(name);
    lemma_last_dot_is_dot(name);
    reveal_strlit(".part");
    reveal_strlit("tmp.part");
    reveal_strlit(".");
    let r = spec_with_extension(s, host, spec_part_extension(s, host));
    assert(spec_file_name(s, host) == Some(name));
    assert(t.take(start) + name =~= t);
    if last_dot(name) > 0 {
        let d = last_dot(name);
        assert(name.take(d) + "."@ + name.skip(d + 1) =~= name);
        assert(r =~= t + ".part"@);
    } else {
        reveal_strlit(".tmp.part");
        assert(spec_stem(name) == name);
        assert(r =~= t + ".tmp.part"@);
    }
    if r == s {
        assert(r.last() == 't');
        assert(is_sep(s[s.len() - 1], host) || s[s.len() - 1] == '.');
    }
}

/// The name the temporary copy of a file named `s` gets: `s` with the
/// extension `<ext>.part` (`<ext>` is its own extension, or "tmp").
pub open spec fn spec_part_name(s: Seq<char>, host: Host) -> Seq<char> {
    spec_with_extension(s, host, spec_part_extension(s, host))
}

fn part_name(s: &str, host: &Host) -> (r: String)
    ensures
        r@ == spec_part_name(s@, *host),
        spec_file_name(s@, *host) is Some ==> r@ != s@,
{
    proof {
        if spec_file_name(s@, *host) is Some {
            lemma_part_name_differs(s@, *host);
        }
    }
    let name = file_name_or_empty(s, host);
    let nv = crate::text::chars_of(name.as_str());
    let ext = match last_dot_in(&nv, 0, nv.len()) {
        Some(d) => if d == 0 {
            owned("tmp.part")
        } else {
            let e = crate::text::string_from_range(&nv, d + 1, nv.len());
            concat2(e.as_str(), ".part")
        },
        None => owned("tmp.part"),
    };
    proof {
        assert(nv@.subrange(0, nv@.len() as int) =~= nv@);
        let nm = nv@;
        if last_dot(nm) > 0 {
            assert(nv@.subrange(last_dot(nm) + 1, nv@.len() as int) =~= nm.skip(last_dot(nm) + 1));
        }
    }
    with_extension(s, host, ext.as_str())
}

/// The temporary file a download is written to before it is renamed to
/// `dest`: same folder, the extension `<ext>.part` (`<ext>` is the
/// destination's extension, or "tmp"). The last component is taken as the
/// file's name (the base folder, when there are no components); one without
/// a file name (such as `..`) leaves the path as it is.
pub fn part_path(dest: &FsPath, host: &Host) -> (p: FsPath)
    ensures
        dest.comps().len() > 0 ==> p.root@ == dest.root@ && p.comps() == dest.comps().drop_last().push(
            spec_part_name(dest.comps().last(), *host),
        ),
        dest.comps().len() == 0 ==> p.root@ == spec_part_name(dest.root@, *host) && p.comps()
            == dest.comps(),
        dest.comps().len() > 0 && spec_file_name(dest.comps().last(), *host) is Some ==> p.comps().last()
            != dest.comps().last(),
        dest.comps().len() == 0 && spec_file_name(dest.root@, *host) is Some ==> p.root@ != dest.root@,
{
    let mut p = dest.duplicate();
    if dest.parts.len() == 0 {
        p.root = part_name(dest.root.as_str(), host);
        return p;
    }
    let last_index = dest.parts.len() - 1;
    let new_last = part_name(dest.parts[last_index].as_str(), host);
    assert(dest.comps().last() == dest.parts@[last_index as int]@);
    p.parts.set(last_index, new_last);
    proof {
        assert(views(p.parts@) =~= dest.comps().drop_last().push(new_last@));
    }
    p
}

/// The folder an archive entry is unpacked into only when it is a file
/// (no trailing `/`), is not under an excluded prefix, and is not jar
/// metadata (`META-INF/`).
pub open spec fn spec_extract_entry(name: Seq<char>, exclude: Seq<Seq<char>>) -> bool {
    &&& !(name.len() > 0 && name.last() == '/')
    &&& forall|i: int| 0 <= i < exclude.len() ==> !crate::text::spec_starts_with(name, #[trigger] exclude[i])
    &&& !crate::text::spec_starts_with(name, "META-INF/"@)
}

/// Should the archive entry `name` be unpacked?
pub fn extract_entry(name: &str, exclude: &Vec<String>) -> (r: bool)
    ensures
        r == spec_extract_entry(name@, views(exclude@)),
{
    if crate::text::ends_with(name, "/") {
        proof {
            reveal_strlit("/");
            assert(name@.skip(name@.len() - 1)[0] == name@.last());
        }
        return false;
    }
    proof {
        reveal_strlit("/");
        if name@.len() > 0 && name@.last() == '/' {
            assert(name@.skip(name@.len() - 1) =~= "/"@);
        }
    }
    let mut i: usize = 0;
    while i < exclude.len()
        invariant
            i <= exclude.len(),
            forall|j: int| 0 <= j < i ==> !crate::text::spec_starts_with(name@, #[trigger] views(exclude@)[j]),
        decreases exclude.len() - i,
    {
        if crate::text::starts_with(name, exclude[i].as_str()) {
            assert(views(exclude@)[i as int] == exclude@[i as int]@);
            return false;
        }
        i += 1;
    }
    !crate::text::starts_with(name, "META-INF/")
}


// ---------------------------------------------------------------------------
// Download plans
// ---------------------------------------------------------------------------

/// The libraries folder of a data folder, as a value.
// ---------------------------------------------------------------------------
// Native jars
// ---------------------------------------------------------------------------

/// The names of the entries of a zip archive, in the archive's order, or
/// the text of the error that opening it gave, as the `zip` crate reads them
/// from these bytes.
pub uninterp spec fn zip_entry_names_of(data: Seq<u8>) -> Result<Seq<Seq<char>>, Seq<char>>;

/// The unpacked contents of entry `index` of a zip archive, as the `zip`
/// crate gives them for these bytes; on failure whether it came from reading
/// the entry's bytes (`true`, an I/O error) or from the archive (`false`),
/// and the error's text.
pub uninterp spec fn zip_entry_data_of(data: Seq<u8>, index: nat) -> Result<Seq<u8>, (bool, Seq<char>)>;

/// `zip::ZipArchive::new` over the bytes, then `file_names`.
#[verifier::external_body]
fn zip_entry_names(data: &[u8]) -> (r: Result<Vec<String>, String>)
    ensures
        match r {
            Ok(v) => zip_entry_names_of(data@) == Ok::<Seq<Seq<char>>, Seq<char>>(views(v@)),
            Err(m) => zip_entry_names_of(data@) == Err::<Seq<Seq<char>>, Seq<char>>(m@),
        },
{
    match zip::ZipArchive::new(std::io::Cursor::new(data)) {
        Ok(archive) => Ok(archive.file_names().map(|n| n.to_string()).collect()),
        Err(e) => Err(e.to_string()),
    }
}

/// `zip::ZipArchive::new` over the bytes, `by_index(index)`, then
/// `read_to_end` of the entry.
#[verifier::external_body]
fn zip_entry_data(data: &[u8], index: usize) -> (r: Result<Vec<u8>, (bool, String)>)
    ensures
        match r {
            Ok(v) => zip_entry_data_of(data@, index as nat) == Ok::<Seq<u8>, (bool, Seq<char>)>(v@),
            Err((io, m)) => zip_entry_data_of(data@, index as nat) == Err::<Seq<u8>, (bool, Seq<char>)>((io, m@)),
        },
{
    let mut archive = match zip::ZipArchive::new(std::io::Cursor::new(data)) {
        Ok(a) => a,
        Err(e) => return Err((false, e.to_string())),
    };
    let mut entry = match archive.by_index(index) {
        Ok(e) => e,
        Err(e) => return Err((false, e.to_string())),
    };
    let mut out: Vec<u8> = Vec::new();
    match std::io::Read::read_to_end(&mut entry, &mut out) {
        Ok(_) => Ok(out),
        Err(e) => Err((true, e.to_string())),
    }
}

/// The error of a native jar that could not be unpacked: an archive error
/// names the jar (`jar_display`), an I/O error is an I/O error.
pub open spec fn native_fault(jar_display: Seq<char>, fault: (bool, Seq<char>), e: Error) -> bool {
    if fault.0 {
        e matches Error::Io(m) && m@ == fault.1
    } else {
        e matches Error::Zip { path, source } && path@ == jar_display && source@ == fault.1
    }
}

/// The file name an unpacked entry is written under.
pub open spec fn native_file_name(entry: Seq<char>, host: Host) -> Seq<char> {
    match spec_file_name(entry, host) {
        Some(n) => n,
        None => Seq::<char>::empty(),
    }
}

/// The entries of a jar to unpack, from their names: the index of each kept
/// entry (not a folder, not metadata, not under an excluded prefix) and the
/// file name it is written under, in the archive's order.
pub open spec fn native_plan(names: Seq<Seq<char>>, exclude: Seq<Seq<char>>, host: Host) -> Seq<(nat, Seq<char>)>
    decreases names.len(),
{
    if names.len() == 0 {
        Seq::<(nat, Seq<char>)>::empty()
    } else {
        let p = native_plan(names.drop_last(), exclude, host);
        if spec_extract_entry(names.last(), exclude) {
            p.push(((names.len() - 1) as nat, native_file_name(names.last(), host)))
        } else {
            p
        }
    }
}

/// Reading the first `n` planned entries of the jar: their files in order,
/// or the failure of the first one that could not be read.
pub open spec fn read_natives(jar: Seq<u8>, plan: Seq<(nat, Seq<char>)>, n: nat) -> Result<
    Seq<(Seq<char>, Seq<u8>)>,
    (bool, Seq<char>),
>
    decreases n,
{
    if n == 0 {
        Ok(Seq::<(Seq<char>, Seq<u8>)>::empty())
    } else {
        match read_natives(jar, plan, (n - 1) as nat) {
            Err(f) => Err(f),
            Ok(files) => match zip_entry_data_of(jar, plan[n - 1].0) {
                Ok(d) => Ok(files.push((plan[n - 1].1, d))),
                Err(f) => Err(f),
            },
        }
    }
}

/// Once reading failed, later entries do not change the failure.
proof fn lemma_read_failure_stays(jar: Seq<u8>, plan: Seq<(nat, Seq<char>)>, k: nat, n: nat)
    requires
        k <= n,
        read_natives(jar, plan, k) is Err,
    ensures
        read_natives(jar, plan, n) == read_natives(jar, plan, k),
    decreases n - k,
{
    if k < n {
        lemma_read_failure_stays(jar, plan, k, (n - 1) as nat);
    }
}

/// Views of a plan.
pub open spec fn plan_views(v: Seq<(usize, String)>) -> Seq<(nat, Seq<char>)> {
    v.map_values(|e: (usize, String)| (e.0 as nat, e.1@))
}

/// Which entries of a jar to unpack, given their names in the archive's
/// order, and under which file names.
pub fn native_entries(names: &Vec<String>, exclude: &Vec<String>, host: &Host) -> (r: Vec<(usize, String)>)
    ensures
        plan_views(r@) == native_plan(views(names@), views(exclude@), *host),
{
    let ghost ns = views(names@);
    let mut r: Vec<(usize, String)> = Vec::new();
    let mut i: usize = 0;
    assert(ns.take(0) =~= Seq::<Seq<char>>::empty());
    assert(plan_views(r@) =~= Seq::<(nat, Seq<char>)>::empty());
    while i < names.len()
        invariant
            i <= names.len(),
            ns == views(names@),
            plan_views(r@) == native_plan(ns.take(i as int), views(exclude@), *host),
        decreases names.len() - i,
    {
        proof {
            assert(ns.take(i + 1).drop_last() =~= ns.take(i as int));
            assert(ns.take(i + 1).last() == names[i as int]@);
        }
        if extract_entry(names[i].as_str(), exclude) {
            let name = file_name_or_empty(names[i].as_str(), host);
            let ghost before = r@;
            r.push((i, name));
            assert(plan_views(r@) =~= plan_views(before).push((i as nat, name@)));
        }
        i += 1;
    }
    assert(ns.take(names.len() as int) =~= ns);
    r
}

/// Views of unpacked files.
pub open spec fn file_views(v: Seq<(String, Vec<u8>)>) -> Seq<(Seq<char>, Seq<u8>)> {
    v.map_values(|f: (String, Vec<u8>)| (f.0@, f.1@))
}

/// The loose native files of a jar (`jar` holds its bytes): every entry that
/// is not a folder, not metadata and not under an excluded prefix, under its
/// bare file name, with its contents, in the archive's order. A jar that
/// cannot be opened, or a kept entry that cannot be read, is an error.
pub fn native_files_of_jar(jar: &[u8], jar_display: &str, exclude: &Vec<String>, host: &Host) -> (r: Result<
    Vec<(String, Vec<u8>)>,
    Error,
>)
    ensures
        match zip_entry_names_of(jar@) {
            Err(m) => r matches Err(Error::Zip { path, source }) && path@ == jar_display@ && source@ == m,
            Ok(names) => {
                let plan = native_plan(names, views(exclude@), *host);
                match read_natives(jar@, plan, plan.len()) {
                    Ok(files) => r matches Ok(v) && file_views(v@) == files,
                    Err(f) => r matches Err(e) && native_fault(jar_display@, f, e),
                }
            },
        },
{
    let names = match zip_entry_names(jar) {
        Ok(n) => n,
        Err(m) => return Err(Error::Zip { path: owned(jar_display), source: m }),
    };
    let plan = native_entries(&names, exclude, host);
    let ghost p = plan_views(plan@);
    let mut files: Vec<(String, Vec<u8>)> = Vec::new();
    assert(file_views(files@) =~= Seq::<(Seq<char>, Seq<u8>)>::empty());
    let mut j: usize = 0;
    while j < plan.len()
        invariant
            j <= plan.len(),
            p == plan_views(plan@),
            zip_entry_names_of(jar@) == Ok::<Seq<Seq<char>>, Seq<char>>(views(names@)),
            p == native_plan(views(names@), views(exclude@), *host),
            read_natives(jar@, p, j as nat) == Ok::<Seq<(Seq<char>, Seq<u8>)>, (bool, Seq<char>)>(
                file_views(files@),
            ),
        decreases plan.len() - j,
    {
        assert(p[j as int] == (plan[j as int].0 as nat, plan[j as int].1@));
        match zip_entry_data(jar, plan[j].0) {
            Ok(d) => {
                let name = plan[j].1.clone();
                let ghost before = files@;
                files.push((name, d));
                assert(file_views(files@) =~= file_views(before).push((name@, d@)));
            },
            Err((io, m)) => {
                proof {
                    lemma_read_failure_stays(jar@, p, (j + 1) as nat, p.len());
                }
                if io {
                    return Err(Error::Io(m));
                } else {
                    return Err(Error::Zip { path: owned(jar_display), source: m });
                }
            },
        }
        j += 1;
    }
    Ok(files)
}

pub open spec fn libraries_view(data: PathView) -> PathView {
    PathView { root: data.root, comps: data.comps + seq!["instances"@, "default"@, "libraries"@] }
}

pub open spec fn assets_view(data: PathView) -> PathView {
    PathView { root: data.root, comps: data.comps + seq!["instances"@, "default"@, "assets"@] }
}

/// The client jar of a resolved version: `versions/<id>/<id>.jar`, checked
/// against the announced SHA-1 and size. A version without a client download
/// (a loader installed without its base game) is an error.
pub fn client_jar_request(data_dir: &FsPath, version: &ResolvedVersion) -> (r: Result<FileRequest, Error>)
    ensures
        match version.client_download {
            None => r matches Err(Error::Other(m)) && m@ == version.id@
                + ": no tiene downloads.client (¿instalaste Forge?)"@,
            Some(d) => r matches Ok(req) && req@ == (FileRequestView {
                url: d.url@,
                dest: PathView {
                    root: data_dir@.root,
                    comps: data_dir@.comps + seq![
                        "instances"@,
                        "default"@,
                        "versions"@,
                        version.id@,
                        version.id@ + ".jar"@,
                    ],
                },
                sha1: Some(d.sha1@),
                size: Some(d.size),
            }),
        },
{
    let dest = version_jar_path(data_dir, version.id.as_str());
    match &version.client_download {
        None => Err(
            Error::Other(concat2(version.id.as_str(), ": no tiene downloads.client (¿instalaste Forge?)")),
        ),
        Some(d) => Ok(
            FileRequest { url: d.url.clone(), dest, sha1: Some(d.sha1.clone()), size: Some(d.size) },
        ),
    }
}

/// Where a library's jar comes from: (path in the libraries folder, URL,
/// SHA-1, size); empty SHA-1 and zero size mean "not known".
pub open spec fn spec_artifact_source(lib: Library) -> Option<(Seq<char>, Seq<char>, Seq<char>, u64)> {
    match lib.downloads {
        Some(d) if d.artifact is Some => {
            let a = d.artifact->0;
            Some(
                (
                    match a.path {
                        Some(p) => p@,
                        None => spec_maven_path(lib.name@, None),
                    },
                    a.url@,
                    a.sha1@,
                    a.size,
                ),
            )
        },
        _ => match lib.url {
            Some(base) => Some(
                (
                    spec_maven_path(lib.name@, None),
                    spec_trim_end_char(base@, '/') + "/"@ + spec_maven_path(lib.name@, None),
                    Seq::<char>::empty(),
                    0,
                ),
            ),
            None => None,
        },
    }
}

/// Is the library used on `host` (with no features active)?
pub open spec fn plan_allows(lib: Library, host: Host) -> bool {
    spec_library_allowed(lib, Map::<Seq<char>, bool>::empty(), host)
}

/// The download of a used library's jar.
pub open spec fn spec_artifact_request(lib: Library, data: PathView, host: Host) -> Option<FileRequestView> {
    if plan_allows(lib, host) {
        match spec_artifact_source(lib) {
            Some((path, url, sha1, size)) => Some(
                FileRequestView {
                    url: url,
                    dest: path_join(libraries_view(data), path),
                    sha1: if sha1.len() == 0 {
                        None
                    } else {
                        Some(sha1)
                    },
                    size: if size == 0 {
                        None
                    } else {
                        Some(size)
                    },
                },
            ),
            None => None,
        }
    } else {
        None
    }
}

/// The native jar of a used library for `host`, and the entry prefixes not to unpack.
pub open spec fn spec_native_job(lib: Library, data: PathView, host: Host) -> Option<(FileRequestView, Seq<Seq<char>>)> {
    if plan_allows(lib, host) {
        match spec_native_classifier(lib, host) {
            Some(c) => match lib.downloads {
                Some(d) => match d.classifiers {
                    Some(cls) => if cls@.dom().contains(c) {
                        let info = cls@[c];
                        Some(
                            (
                                FileRequestView {
                                    url: info.url@,
                                    dest: path_join(libraries_view(data), spec_maven_path(lib.name@, Some(c))),
                                    sha1: Some(info.sha1@),
                                    size: Some(info.size),
                                },
                                match lib.extract {
                                    Some(e) => views(e.exclude@),
                                    None => Seq::<Seq<char>>::empty(),
                                },
                            ),
                        )
                    } else {
                        None
                    },
                    None => None,
                },
                None => None,
            },
            None => None,
        }
    } else {
        None
    }
}

/// Every path the plan builds from a library name has a full Maven coordinate.
pub open spec fn plan_defined(libs: Seq<Library>, host: Host) -> bool {
    forall|i: int|
        0 <= i < libs.len() ==> {
            let l = #[trigger] libs[i];
            plan_allows(l, host) ==> {
                &&& (artifact_uses_coordinate(l) ==> is_full_coordinate(l.name@))
                &&& (spec_native_job_found(l, host) ==> is_full_coordinate(l.name@))
            }
        }
}

/// The library has a native classifier for `host` listed among its downloads.
pub open spec fn spec_native_job_found(l: Library, host: Host) -> bool {
    match spec_native_classifier(l, host) {
        Some(c) => match l.downloads {
            Some(d) => match d.classifiers {
                Some(cls) => cls@.dom().contains(c),
                None => false,
            },
            None => false,
        },
        None => false,
    }
}

fn uses_coordinate(lib: &Library) -> (r: bool)
    ensures
        r == artifact_uses_coordinate(*lib),
{
    match &lib.downloads {
        Some(d) => match &d.artifact {
            Some(a) => a.path.is_none(),
            None => lib.url.is_some(),
        },
        None => lib.url.is_some(),
    }
}

fn native_job_found(lib: &Library, host: &Host) -> (r: bool)
    ensures
        r == spec_native_job_found(*lib, *host),
{
    match lib.native_classifier(host) {
        Some(c) => match &lib.downloads {
            Some(d) => match &d.classifiers {
                Some(cls) => cls.get(c.as_str()).is_some(),
                None => false,
            },
            None => false,
        },
        None => false,
    }
}

fn full_coordinate(name: &str) -> (r: bool)
    ensures
        r == is_full_coordinate(name@),
{
    split_char(name, ':').len() >= 3
}

/// Can the libraries of a version be planned on `host`? Every library used
/// there whose paths come from its coordinate has group, artifact and
/// version.
pub fn plan_is_defined(libs: &Vec<Library>, host: &Host) -> (r: bool)
    ensures
        r == plan_defined(libs@, *host),
{
    let features: StrMap<bool> = StrMap::new();
    assert(features@ =~= Map::<Seq<char>, bool>::empty());
    let mut i: usize = 0;
    while i < libs.len()
        invariant
            i <= libs.len(),
            features@ == Map::<Seq<char>, bool>::empty(),
            forall|j: int|
                0 <= j < i ==> {
                    let l = #[trigger] libs@[j];
                    plan_allows(l, *host) ==> {
                        &&& (artifact_uses_coordinate(l) ==> is_full_coordinate(l.name@))
                        &&& (spec_native_job_found(l, *host) ==> is_full_coordinate(l.name@))
                    }
                },
        decreases libs.len() - i,
    {
        let lib = &libs[i];
        if lib.is_allowed(&features, host) {
            let full = full_coordinate(lib.name.as_str());
            if !full && (uses_coordinate(lib) || native_job_found(lib, host)) {
                return false;
            }
        }
        i += 1;
    }
    true
}

/// The library with its rules taken away.
pub open spec fn without_rules(lib: Library) -> Library {
    Library {
        name: lib.name,
        url: lib.url,
        downloads: lib.downloads,
        natives: lib.natives,
        rules: None,
        extract: lib.extract,
    }
}

/// A library's rules only decide whether it is used: when they allow it on
/// the host (with no features on) it is planned exactly as the same library
/// without rules; when they do not, neither its jar nor its native jar is.
pub proof fn lemma_rules_only_gate(lib: Library, data: PathView, host: Host)
    ensures
        lib.rules matches Some(r) && spec_rules_allow(r@, Map::<Seq<char>, bool>::empty(), host) ==> {
            &&& spec_artifact_request(lib, data, host) == spec_artifact_request(without_rules(lib), data, host)
            &&& spec_native_job(lib, data, host) == spec_native_job(without_rules(lib), data, host)
        },
        lib.rules matches Some(r) && !spec_rules_allow(r@, Map::<Seq<char>, bool>::empty(), host) ==> {
            &&& spec_artifact_request(lib, data, host) is None
            &&& spec_native_job(lib, data, host) is None
        },
{
}

/// The jar of a library without rules, as planned: none for a library of
/// another architecture (a "-arm64" or "-x86" name on another processor);
/// otherwise its `downloads.artifact` (URL, SHA-1 and size checked when
/// given, path as listed or built from the coordinate) or, failing that, the
/// Maven path under its repository `url`, unchecked; none when it has
/// neither. The jar goes under `instances/default/libraries`.
pub proof fn lemma_unruled_library_request(lib: Library, data: PathView, host: Host)
    requires
        lib.rules is None,
    ensures
        !spec_matches_arch(lib.name@, host) ==> spec_artifact_request(lib, data, host) is None,
        spec_matches_arch(lib.name@, host) ==> match lib.downloads {
            Some(d) if d.artifact is Some => {
                let a = d.artifact->0;
                let path = match a.path {
                    Some(p) => p@,
                    None => spec_maven_path(lib.name@, None),
                };
                spec_artifact_request(lib, data, host) == Some(
                    FileRequestView {
                        url: a.url@,
                        dest: PathView {
                            root: data.root,
                            comps: data.comps + seq!["instances"@, "default"@, "libraries"@, path],
                        },
                        sha1: if a.sha1@.len() == 0 {
                            None
                        } else {
                            Some(a.sha1@)
                        },
                        size: if a.size == 0 {
                            None
                        } else {
                            Some(a.size)
                        },
                    },
                )
            },
            _ => match lib.url {
                Some(base) => spec_artifact_request(lib, data, host) == Some(
                    FileRequestView {
                        url: spec_trim_end_char(base@, '/') + "/"@ + spec_maven_path(lib.name@, None),
                        dest: PathView {
                            root: data.root,
                            comps: data.comps + seq![
                                "instances"@,
                                "default"@,
                                "libraries"@,
                                spec_maven_path(lib.name@, None),
                            ],
                        },
                        sha1: None,
                        size: None,
                    },
                ),
                None => spec_artifact_request(lib, data, host) is None,
            },
        },
{
    assert(data.comps + seq!["instances"@, "default"@, "libraries"@] == libraries_view(data).comps);
    if spec_matches_arch(lib.name@, host) {
        match lib.downloads {
            Some(d) if d.artifact is Some => {
                let a = d.artifact->0;
                let path = match a.path {
                    Some(p) => p@,
                    None => spec_maven_path(lib.name@, None),
                };
                assert(libraries_view(data).comps.push(path) =~= data.comps + seq![
                    "instances"@,
                    "default"@,
                    "libraries"@,
                    path,
                ]);
            },
            _ => {
                let path = spec_maven_path(lib.name@, None);
                assert(libraries_view(data).comps.push(path) =~= data.comps + seq![
                    "instances"@,
                    "default"@,
                    "libraries"@,
                    path,
                ]);
            },
        }
    }
}

/// The native jar of a library without rules is planned exactly when the
/// library is for this architecture and lists, among its classifier
/// downloads, the classifier its `natives` give for this system; it goes
/// under the Maven path of the name with that classifier, checked by the
/// listed SHA-1 and size, with the library's excluded prefixes.
pub proof fn lemma_unruled_native_job(lib: Library, data: PathView, host: Host)
    requires
        lib.rules is None,
    ensures
        spec_native_job(lib, data, host) is Some <==> spec_matches_arch(lib.name@, host)
            && spec_native_job_found(lib, host),
        spec_native_job(lib, data, host) matches Some((req, ex)) ==> {
            let c = spec_native_classifier(lib, host)->0;
            let info = lib.downloads->0.classifiers->0@[c];
            &&& req.url == info.url@
            &&& req.sha1 == Some(info.sha1@)
            &&& req.size == Some(info.size)
            &&& req.dest == (PathView {
                root: data.root,
                comps: data.comps + seq!["instances"@, "default"@, "libraries"@, spec_maven_path(lib.name@, Some(c))],
            })
            &&& ex == match lib.extract {
                Some(e) => views(e.exclude@),
                None => Seq::<Seq<char>>::empty(),
            }
        },
{
    if let Some((req, ex)) = spec_native_job(lib, data, host) {
        let c = spec_native_classifier(lib, host)->0;
        assert(libraries_view(data).comps.push(spec_maven_path(lib.name@, Some(c))) =~= data.comps + seq![
            "instances"@,
            "default"@,
            "libraries"@,
            spec_maven_path(lib.name@, Some(c)),
        ]);
    }
}

/// In a whole plan, taking away rules that allow a library changes nothing:
/// the downloads and native jars are the same.
pub proof fn lemma_plan_ignores_allowing_rules(libs: Seq<Library>, i: int, data: PathView, host: Host)
    requires
        0 <= i < libs.len(),
        libs[i].rules matches Some(r) && spec_rules_allow(r@, Map::<Seq<char>, bool>::empty(), host),
    ensures
        collect(libs, |l: Library| spec_artifact_request(l, data, host)) == collect(
            libs.update(i, without_rules(libs[i])),
            |l: Library| spec_artifact_request(l, data, host),
        ),
        collect(libs, |l: Library| spec_native_job(l, data, host)) == collect(
            libs.update(i, without_rules(libs[i])),
            |l: Library| spec_native_job(l, data, host),
        ),
    decreases libs.len(),
{
    lemma_rules_only_gate(libs[i], data, host);
    let u = libs.update(i, without_rules(libs[i]));
    if i == libs.len() - 1 {
        assert(u.drop_last() =~= libs.drop_last());
    } else {
        lemma_plan_ignores_allowing_rules(libs.drop_last(), i, data, host);
        assert(u.drop_last() =~= libs.drop_last().update(i, without_rules(libs[i])));
        assert(u.last() == libs.last());
    }
}

/// A native jar to fetch and unpack.
#[derive(Debug)]
pub struct NativeJar {
    pub request: FileRequest,
    pub exclude: Vec<String>,
}

/// What the libraries step does: the jars for the classpath (in order), the
/// downloads they need, and the native jars to fetch and unpack.
#[derive(Debug)]
pub struct LibraryPlan {
    pub classpath: Vec<FsPath>,
    pub downloads: Vec<FileRequest>,
    pub natives: Vec<NativeJar>,
}

pub open spec fn request_views(v: Seq<FileRequest>) -> Seq<FileRequestView> {
    v.map_values(|r: FileRequest| r@)
}

pub open spec fn native_views(v: Seq<NativeJar>) -> Seq<(FileRequestView, Seq<Seq<char>>)> {
    v.map_values(|j: NativeJar| (j.request@, views(j.exclude@)))
}

pub open spec fn path_views(v: Seq<FsPath>) -> Seq<PathView> {
    v.map_values(|p: FsPath| p@)
}

/// The `Some` results of `f` on `libs`, in order.
pub open spec fn collect<T>(libs: Seq<Library>, f: spec_fn(Library) -> Option<T>) -> Seq<T>
    decreases libs.len(),
{
    if libs.len() == 0 {
        Seq::<T>::empty()
    } else {
        let rest = collect(libs.drop_last(), f);
        match f(libs.last()) {
            Some(x) => rest.push(x),
            None => rest,
        }
    }
}

fn clone_strings(v: &Vec<String>) -> (r: Vec<String>)
    ensures
        views(r@) == views(v@),
{
    let mut r: Vec<String> = Vec::new();
    crate::text::push_all_cloned(&mut r, v);
    assert(views(r@) =~= views(v@));
    r
}

/// The plan for the libraries of `version` on `host`, with no feature active.
pub fn plan_libraries(data_dir: &FsPath, version: &ResolvedVersion, host: &Host) -> (plan: LibraryPlan)
    requires
        plan_defined(version.libraries@, *host),
    ensures
        request_views(plan.downloads@) == collect(
            version.libraries@,
            |l: Library| spec_artifact_request(l, data_dir@, *host),
        ),
        path_views(plan.classpath@) == request_views(plan.downloads@).map_values(
            |r: FileRequestView| r.dest,
        ),
        native_views(plan.natives@) == collect(
            version.libraries@,
            |l: Library| spec_native_job(l, data_dir@, *host),
        ),
{
    let libs_dir = libraries_dir(data_dir);
    assert(libs_dir@ == libraries_view(data_dir@));
    let features: StrMap<bool> = StrMap::new();
    let mut classpath: Vec<FsPath> = Vec::new();
    let mut downloads: Vec<FileRequest> = Vec::new();
    let mut natives: Vec<NativeJar> = Vec::new();
    let ghost fa = |l: Library| spec_artifact_request(l, data_dir@, *host);
    let ghost fn_ = |l: Library| spec_native_job(l, data_dir@, *host);
    let libs = &version.libraries;
    let mut i: usize = 0;
    assert(libs@.take(0) =~= Seq::<Library>::empty());
    while i < libs.len()
        invariant
            i <= libs.len(),
            libs@ == version.libraries@,
            plan_defined(libs@, *host),
            features@ == Map::<Seq<char>, bool>::empty(),
            libs_dir@ == libraries_view(data_dir@),
            request_views(downloads@) == collect(libs@.take(i as int), fa),
            path_views(classpath@) == request_views(downloads@).map_values(|r: FileRequestView| r.dest),
            native_views(natives@) == collect(libs@.take(i as int), fn_),
            fa == (|l: Library| spec_artifact_request(l, data_dir@, *host)),
            fn_ == (|l: Library| spec_native_job(l, data_dir@, *host)),
        decreases libs.len() - i,
    {
        let lib = &libs[i];
        proof {
            assert(libs@.take(i + 1).drop_last() =~= libs@.take(i as int));
            assert(libs@.take(i + 1).last() == *lib);
        }
        if lib.is_allowed(&features, host) {
            let ghost before_d = downloads@;
            let ghost before_c = classpath@;
            match library_artifact_download(lib) {
                Some((path, info)) => {
                    let dest = libs_dir.join(path.as_str());
                    let sha1 = if info.sha1.as_str().is_empty() {
                        None
                    } else {
                        Some(info.sha1.clone())
                    };
                    let size = if info.size == 0 {
                        None
                    } else {
                        Some(info.size)
                    };
                    let req = FileRequest { url: info.url, dest: dest.duplicate(), sha1, size };
                    assert(req@ == spec_artifact_request(*lib, data_dir@, *host)->0);
                    classpath.push(dest);
                    downloads.push(req);
                    proof {
                        assert(request_views(downloads@) =~= request_views(before_d).push(req@));
                        assert(path_views(classpath@) =~= path_views(before_c).push(dest@));
                        assert(path_views(classpath@) =~= request_views(downloads@).map_values(
                            |r: FileRequestView| r.dest,
                        ));
                    }
                },
                None => {},
            }
            let ghost before_n = natives@;
            match lib.native_classifier(host) {
                Some(classifier) => {
                    match &lib.downloads {
                        Some(d) => match &d.classifiers {
                            Some(cls) => match cls.get(classifier.as_str()) {
                                Some(info) => {
                                    let jar = maven_path(lib.name.as_str(), Some(classifier.as_str()));
                                    let dest = libs_dir.join(jar.as_str());
                                    let exclude = match &lib.extract {
                                        Some(e) => clone_strings(&e.exclude),
                                        None => Vec::new(),
                                    };
                                    let job = NativeJar {
                                        request: FileRequest {
                                            url: info.url.clone(),
                                            dest,
                                            sha1: Some(info.sha1.clone()),
                                            size: Some(info.size),
                                        },
                                        exclude,
                                    };
                                    natives.push(job);
                                    proof {
                                        assert(views(job.exclude@) =~= match lib.extract {
                                            Some(e) => views(e.exclude@),
                                            None => Seq::<Seq<char>>::empty(),
                                        });
                                        assert(native_views(natives@) =~= native_views(before_n).push(
                                            (job.request@, views(job.exclude@)),
                                        ));
                                    }
                                },
                                None => {},
                            },
                            None => {},
                        },
                        None => {},
                    }
                },
                None => {},
            }
        }
        i += 1;
    }
    assert(libs@.take(libs.len() as int) =~= libs@);
    LibraryPlan { classpath, downloads, natives }
}


// ---------------------------------------------------------------------------
// Assets
// ---------------------------------------------------------------------------

pub const ASSET_BASE_URL: &'static str = "https://resources.download.minecraft.net";

/// One object of an asset index.
#[derive(Debug, Clone)]
pub struct AssetObject {
    pub hash: String,
    pub size: u64,
}

/// The index of the version's assets: `assets/indexes/<id>.json`, checked
/// against the announced SHA-1 and size.
pub fn asset_index_request(data_dir: &FsPath, version: &ResolvedVersion) -> (r: FileRequest)
    ensures
        r@ == (FileRequestView {
            url: version.asset_index.url@,
            dest: PathView {
                root: data_dir@.root,
                comps: assets_view(data_dir@).comps + seq!["indexes"@, version.asset_index.id@ + ".json"@],
            },
            sha1: Some(version.asset_index.sha1@),
            size: Some(version.asset_index.size),
        }),
{
    let name = concat2(version.asset_index.id.as_str(), ".json");
    let dest = assets_dir(data_dir).join("indexes").join(name.as_str());
    assert(dest.comps() =~= assets_view(data_dir@).comps + seq!["indexes"@, version.asset_index.id@ + ".json"@]);
    FileRequest {
        url: version.asset_index.url.clone(),
        dest,
        sha1: Some(version.asset_index.sha1.clone()),
        size: Some(version.asset_index.size),
    }
}

/// Bytes UTF-8 takes for `c`.
pub open spec fn utf8_width(c: char) -> nat {
    if (c as u32) < 0x80 {
        1
    } else if (c as u32) < 0x800 {
        2
    } else if (c as u32) < 0x10000 {
        3
    } else {
        4
    }
}

/// The characters of the first two bytes of `h` (`&h[0..2]`), when those two
/// bytes end on a character boundary.
pub open spec fn asset_prefix(h: Seq<char>) -> Option<Seq<char>> {
    if h.len() >= 1 && utf8_width(h[0]) == 2 {
        Some(h.take(1))
    } else if h.len() >= 2 && utf8_width(h[0]) == 1 && utf8_width(h[1]) == 1 {
        Some(h.take(2))
    } else {
        None
    }
}

/// Does the hash have the two-byte prefix its object is filed under?
pub fn has_asset_prefix(hash: &str) -> (r: bool)
    ensures
        r == asset_prefix(hash@) is Some,
{
    let v = crate::text::chars_of(hash);
    if v.len() >= 1 && (v[0] as u32) >= 0x80 && (v[0] as u32) < 0x800 {
        true
    } else {
        v.len() >= 2 && (v[0] as u32) < 0x80 && (v[1] as u32) < 0x80
    }
}

/// An asset object lives under `objects/<first two bytes of its hash>/<hash>`
/// and is served from the same path on the resource server; it is checked by
/// its hash and size.
pub fn asset_object_request(data_dir: &FsPath, obj: &AssetObject) -> (r: FileRequest)
    requires
        asset_prefix(obj.hash@) is Some,
    ensures
        ({
            let prefix = asset_prefix(obj.hash@)->0;
            r@ == (FileRequestView {
                url: "https://resources.download.minecraft.net"@ + "/"@ + prefix + "/"@ + obj.hash@,
                dest: PathView {
                    root: data_dir@.root,
                    comps: assets_view(data_dir@).comps + seq!["objects"@, prefix, obj.hash@],
                },
                sha1: Some(obj.hash@),
                size: Some(obj.size),
            })
        }),
{
    let v = crate::text::chars_of(obj.hash.as_str());
    let n: usize = if (v[0] as u32) >= 0x80 {
        1
    } else {
        2
    };
    let prefix = crate::text::string_from_range(&v, 0, n);
    assert(prefix@ =~= asset_prefix(obj.hash@)->0);
    let mut url = concat3(ASSET_BASE_URL, "/", prefix.as_str());
    url.append("/");
    url.append(obj.hash.as_str());
    let dest = assets_dir(data_dir).join("objects").join(prefix.as_str()).join(obj.hash.as_str());
    assert(dest.comps() =~= assets_view(data_dir@).comps + seq!["objects"@, prefix@, obj.hash@]);
    FileRequest { url, dest, sha1: Some(obj.hash.clone()), size: Some(obj.size) }
}

/// Is the asset step's progress reported after `finished` of `total` objects?
/// Every 25 objects and at the last one.
pub fn asset_progress_due(finished: u64, total: u64) -> (r: bool)
    ensures
        r == (finished % 25 == 0 || finished == total),
{
    finished % 25 == 0 || finished == total
}

/// "Assets: <finished>/<total>".
pub fn asset_progress_message(finished: u64, total: u64) -> (m: String)
    ensures
        m@ == "Assets: "@ + crate::text::spec_decimal(finished as nat) + "/"@ + crate::text::spec_decimal(
            total as nat,
        ),
{
    let a = crate::text::decimal(finished);
    let b = crate::text::decimal(total);
    let mut m = concat3("Assets: ", a.as_str(), "/");
    m.append(b.as_str());
    m
}

} // verus!
