//! The `rules` of Mojang's version files: which libraries and arguments apply
//! on this machine and with these features.
use crate::strmap::StrMap;
use crate::text::str_eq;
use vstd::prelude::*;

verus! {

/// Operating systems as the version files name them.
#[derive(Debug, Clone, Copy, PartialEq, Eq, Structural)]
pub enum OsKind {
    Windows,
    Macos,
    Linux,
}

/// Processor architectures the launcher tells apart.
#[derive(Debug, Clone, Copy, PartialEq, Eq, Structural)]
pub enum ArchKind {
    X86_64,
    X86,
    Arm64,
    Unknown,
}

/// The machine the launcher runs on. `OsKind::Linux` stands for every
/// system that is neither Windows nor macOS.
#[derive(Debug, Clone, Copy, PartialEq, Eq, Structural)]
pub struct Host {
    pub os: OsKind,
    pub arch: ArchKind,
    /// Pointers are 64 bits wide.
    pub pointer_width_64: bool,
}

pub open spec fn spec_os_name(os: OsKind) -> Seq<char> {
    match os {
        OsKind::Windows => "windows"@,
        OsKind::Macos => "osx"@,
        OsKind::Linux => "linux"@,
    }
}

pub open spec fn spec_arch_name(arch: ArchKind) -> Seq<char> {
    match arch {
        ArchKind::X86_64 => "x86_64"@,
        ArchKind::X86 => "x86"@,
        ArchKind::Arm64 => "arm64"@,
        ArchKind::Unknown => "unknown"@,
    }
}

/// Name of the operating system as Mojang uses it ("windows", "osx", "linux").
pub fn current_os_name(host: &Host) -> (r: &'static str)
    ensures
        r@ == spec_os_name(host.os),
{
    match host.os {
        OsKind::Windows => "windows",
        OsKind::Macos => "osx",
        OsKind::Linux => "linux",
    }
}

/// Name of the architecture ("x86_64", "x86", "arm64", "unknown").
pub fn current_arch(host: &Host) -> (r: &'static str)
    ensures
        r@ == spec_arch_name(host.arch),
{
    match host.arch {
        ArchKind::X86_64 => "x86_64",
        ArchKind::X86 => "x86",
        ArchKind::Arm64 => "arm64",
        ArchKind::Unknown => "unknown",
    }
}

/// The `os` condition of a rule.
#[derive(Debug, Clone)]
pub struct OsRule {
    pub name: Option<String>,
    pub arch: Option<String>,
}

/// One rule: `action` ("allow" or "disallow") applies when the OS condition
/// and every feature condition hold.
#[derive(Debug)]
pub struct Rule {
    pub action: String,
    pub os: Option<OsRule>,
    pub features: Option<StrMap<bool>>,
}

/// A feature flag's value: absent flags count as `false`.
pub open spec fn feature_value(active: Map<Seq<char>, bool>, key: Seq<char>) -> bool {
    if active.dom().contains(key) {
        active[key]
    } else {
        false
    }
}

pub open spec fn spec_os_rule_matches(os: OsRule, host: Host) -> bool {
    &&& (os.name matches Some(n) ==> n@ == spec_os_name(host.os))
    &&& (os.arch matches Some(a) ==> a@ == spec_arch_name(host.arch))
}

pub open spec fn spec_features_match(
    expected: Map<Seq<char>, bool>,
    active: Map<Seq<char>, bool>,
) -> bool {
    forall|k: Seq<char>| #[trigger]
        expected.dom().contains(k) ==> feature_value(active, k) == expected[k]
}

/// Does the rule's condition hold on `host` with the `active` features?
pub open spec fn spec_rule_matches(rule: Rule, active: Map<Seq<char>, bool>, host: Host) -> bool {
    &&& (rule.os matches Some(os) ==> spec_os_rule_matches(os, host))
    &&& (rule.features matches Some(f) ==> spec_features_match(f@, active))
}

pub open spec fn spec_rule_allows(rule: Rule) -> bool {
    rule.action@ == "allow"@
}

/// Verdict of the last matching rule, `false` when none matches.
pub open spec fn last_match_verdict(rules: Seq<Rule>, active: Map<Seq<char>, bool>, host: Host) -> bool
    decreases rules.len(),
{
    if rules.len() == 0 {
        false
    } else if spec_rule_matches(rules.last(), active, host) {
        spec_rule_allows(rules.last())
    } else {
        last_match_verdict(rules.drop_last(), active, host)
    }
}

/// No rules: allowed. Otherwise the last rule that matches decides, and when
/// none matches the answer is "not allowed".
pub open spec fn spec_rules_allow(rules: Seq<Rule>, active: Map<Seq<char>, bool>, host: Host) -> bool {
    rules.len() == 0 || last_match_verdict(rules, active, host)
}

fn os_rule_matches(os: &OsRule, host: &Host) -> (r: bool)
    ensures
        r == spec_os_rule_matches(*os, *host),
{
    if let Some(name) = &os.name {
        if !str_eq(name.as_str(), current_os_name(host)) {
            return false;
        }
    }
    if let Some(arch) = &os.arch {
        if !str_eq(arch.as_str(), current_arch(host)) {
            return false;
        }
    }
    true
}

/// `active.get(key).copied().unwrap_or(false)`.
pub fn feature_enabled(active: &StrMap<bool>, key: &str) -> (r: bool)
    ensures
        r == feature_value(active@, key@),
{
    match active.get(key) {
        Some(v) => *v,
        None => false,
    }
}

fn features_match(expected: &StrMap<bool>, active: &StrMap<bool>) -> (r: bool)
    ensures
        r == spec_features_match(expected@, active@),
{
    let n = expected.len();
    let mut i: usize = 0;
    while i < n
        invariant
            n == expected.entries_view().len(),
            crate::strmap::distinct_keys(expected.entries_view()),
            i <= n,
            forall|j: int|
                0 <= j < i ==> feature_value(active@, (#[trigger] expected.entries_view()[j]).0)
                    == expected.entries_view()[j].1,
        decreases n - i,
    {
        let key = expected.key_at(i);
        let want = *expected.value_at(i);
        if feature_enabled(active, key.as_str()) != want {
            proof {
                crate::strmap::lemma_map_of_entry(expected.entries_view(), i as int);
            }
            return false;
        }
        i += 1;
    }
    proof {
        assert forall|k: Seq<char>| #[trigger]
            expected@.dom().contains(k) implies feature_value(active@, k) == expected@[k] by {
            let e = expected.entries_view();
            let j = choose|j: int| 0 <= j < e.len() && (#[trigger] e[j]).0 == k;
            crate::strmap::lemma_map_of_entry(e, j);
        }
    }
    true
}

/// Does `rule` apply on `host` with the `active` features?
pub fn rule_matches(rule: &Rule, active_features: &StrMap<bool>, host: &Host) -> (r: bool)
    ensures
        r == spec_rule_matches(*rule, active_features@, *host),
{
    if let Some(os) = &rule.os {
        if !os_rule_matches(os, host) {
            return false;
        }
    }
    if let Some(features) = &rule.features {
        if !features_match(features, active_features) {
            return false;
        }
    }
    true
}

/// Evaluates a list of rules the way the vanilla launcher does: no rules
/// means allowed; otherwise the last rule that matches wins.
pub fn rules_allow(rules: &Vec<Rule>, active_features: &StrMap<bool>, host: &Host) -> (r: bool)
    ensures
        r == spec_rules_allow(rules@, active_features@, *host),
{
    if rules.len() == 0 {
        return true;
    }
    let mut allowed = false;
    let mut i: usize = 0;
    assert(rules@.take(0) =~= Seq::<Rule>::empty());
    while i < rules.len()
        invariant
            i <= rules.len(),
            allowed == last_match_verdict(rules@.take(i as int), active_features@, *host),
        decreases rules.len() - i,
    {
        proof {
            assert(rules@.take(i + 1).drop_last() =~= rules@.take(i as int));
            assert(rules@.take(i + 1).last() == rules@[i as int]);
        }
        if rule_matches(&rules[i], active_features, host) {
            allowed = str_eq(rules[i].action.as_str(), "allow");
        }
        i += 1;
    }
    assert(rules@.take(rules.len() as int) =~= rules@);
    allowed
}

/// The last matching rule decides: the verdict is "allow" exactly when some
/// rule matches, says "allow", and no later rule matches.
pub proof fn lemma_last_matching_rule_decides(
    rules: Seq<Rule>,
    active: Map<Seq<char>, bool>,
    host: Host,
)
    ensures
        last_match_verdict(rules, active, host) <==> exists|i: int|
            0 <= i < rules.len() && spec_rule_matches(#[trigger] rules[i], active, host)
                && spec_rule_allows(rules[i]) && forall|j: int|
                i < j < rules.len() ==> !spec_rule_matches(#[trigger] rules[j], active, host),
    decreases rules.len(),
{
    if rules.len() > 0 {
        let init = rules.drop_last();
        lemma_last_matching_rule_decides(init, active, host);
        let n = rules.len() - 1;
        if spec_rule_matches(rules.last(), active, host) {
            if spec_rule_allows(rules.last()) {
                assert(spec_rule_matches(rules[n], active, host));
            } else {
                assert forall|i: int|
                    0 <= i < rules.len() && spec_rule_matches(#[trigger] rules[i], active, host)
                        && spec_rule_allows(rules[i]) implies !(forall|j: int|
                    i < j < rules.len() ==> !spec_rule_matches(
                        #[trigger] rules[j],
                        active,
                        host,
                    )) by {
                    assert(i < n);
                    assert(spec_rule_matches(rules[n], active, host));
                }
            }
        } else {
            if last_match_verdict(init, active, host) {
                let i = choose|i: int|
                    0 <= i < init.len() && spec_rule_matches(#[trigger] init[i], active, host)
                        && spec_rule_allows(init[i]) && forall|j: int|
                        i < j < init.len() ==> !spec_rule_matches(#[trigger] init[j], active, host);
                assert(rules[i] == init[i]);
                assert forall|j: int| i < j < rules.len() implies !spec_rule_matches(
                    #[trigger] rules[j],
                    active,
                    host,
                ) by {
                    if j < n {
                        assert(rules[j] == init[j]);
                    }
                }
            } else {
                assert forall|i: int|
                    0 <= i < rules.len() && spec_rule_matches(#[trigger] rules[i], active, host)
                        && spec_rule_allows(rules[i]) implies !(forall|j: int|
                    i < j < rules.len() ==> !spec_rule_matches(
                        #[trigger] rules[j],
                        active,
                        host,
                    )) by {
                    assert(i < n);
                    assert(rules[i] == init[i]);
                    if forall|j: int|
                        i < j < rules.len() ==> !spec_rule_matches(#[trigger] rules[j], active, host) {
                        assert forall|j: int| i < j < init.len() implies !spec_rule_matches(
                            #[trigger] init[j],
                            active,
                            host,
                        ) by {
                            assert(init[j] == rules[j]);
                        }
                    }
                }
            }
        }
    }
}

/// A rule added at the end that matches overrides everything before it.
pub proof fn lemma_appended_matching_rule_wins(
    rules: Seq<Rule>,
    rule: Rule,
    active: Map<Seq<char>, bool>,
    host: Host,
)
    requires
        spec_rule_matches(rule, active, host),
    ensures
        spec_rules_allow(rules.push(rule), active, host) == spec_rule_allows(rule),
{
    assert(rules.push(rule).last() == rule);
}

/// A rule added at the end that does not match changes nothing, unless the
/// list was empty (then nothing matches any more and the answer turns to "no").
pub proof fn lemma_appended_non_matching_rule(
    rules: Seq<Rule>,
    rule: Rule,
    active: Map<Seq<char>, bool>,
    host: Host,
)
    requires
        !spec_rule_matches(rule, active, host),
    ensures
        rules.len() > 0 ==> spec_rules_allow(rules.push(rule), active, host) == spec_rules_allow(
            rules,
            active,
            host,
        ),
        rules.len() == 0 ==> !spec_rules_allow(rules.push(rule), active, host),
{
    assert(rules.push(rule).drop_last() =~= rules);
    assert(!last_match_verdict(rules.push(rule).drop_last().take(0), active, host));
    if rules.len() == 0 {
        assert(rules.push(rule).drop_last() =~= rules.push(rule).drop_last().take(0));
    }
}

} // verus!
