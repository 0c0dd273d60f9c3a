//! The player's settings and offline identity.
use crate::text::{concat2, spec_hex_lower};
use md5::Digest;
use vstd::prelude::*;

verus! {

/// The launcher's saved settings. The player is an "offline" account, as on
/// any non-premium server: a user name and nothing more.
#[derive(Debug, Clone)]
pub struct Settings {
    pub username: String,
    pub server_ip: String,
    pub server_port: u16,
    /// `None`: use the amount suggested for this machine's memory.
    pub allocated_ram_mb: Option<u32>,
    /// Extra JVM flags typed by the player, added after the launcher's own.
    pub extra_jvm_args: String,
}

impl Default for Settings {
    fn default() -> (s: Self)
        ensures
            s.username@.len() == 0,
            s.server_ip@.len() == 0,
            s.server_port == 25565,
            s.allocated_ram_mb is None,
            s.extra_jvm_args@.len() == 0,
    {
        Settings {
            username: String::new(),
            server_ip: String::new(),
            server_port: 25565,
            allocated_ram_mb: None,
            extra_jvm_args: String::new(),
        }
    }
}

#[verifier::external_type_specification]
#[verifier::external_body]
pub struct ExSystem(sysinfo::System);

/// `sysinfo::System::new`: a system handle with nothing loaded yet.
#[verifier::external_body]
fn system_new() -> sysinfo::System {
    sysinfo::System::new()
}

/// `sysinfo::System::refresh_memory`: reads the machine's memory figures.
#[verifier::external_body]
fn system_refresh_memory(sys: &mut sysinfo::System) {
    sys.refresh_memory();
}

/// `sysinfo::System::total_memory`: the machine's RAM in bytes; what it
/// returns depends on the machine and is not stated.
#[verifier::external_body]
fn system_total_memory(sys: &sysinfo::System) -> u64 {
    sys.total_memory()
}

/// Whole mebibytes in `bytes`, truncated to 32 bits.
pub fn ram_mb_from_bytes(bytes: u64) -> (mb: u32)
    ensures
        mb == (bytes / 1024 / 1024) as u32,
{
    (bytes / 1024 / 1024) as u32
}

/// The machine's RAM in mebibytes.
pub fn total_ram_mb() -> (mb: u32) {
    let mut sys = system_new();
    system_refresh_memory(&mut sys);
    ram_mb_from_bytes(system_total_memory(&sys))
}

/// Half of the RAM, kept between 2 GiB and 8 GiB.
pub open spec fn spec_suggested_ram(total_mb: u32) -> u32 {
    if total_mb / 2 < 2048 {
        2048
    } else if total_mb / 2 > 8192 {
        8192
    } else {
        total_mb / 2
    }
}

/// The RAM suggested for a machine with `total_mb` mebibytes: half of it,
/// clamped to 2048..=8192, so that neither the game nor the rest of the
/// system is starved.
pub fn suggested_ram_for(total_mb: u32) -> (r: u32)
    ensures
        r == spec_suggested_ram(total_mb),
        2048 <= r <= 8192,
{
    let half = total_mb / 2;
    if half < 2048 {
        2048
    } else if half > 8192 {
        8192
    } else {
        half
    }
}

/// The suggestion is half the machine's memory whenever half lies within
/// 2 GiB..8 GiB, and the nearer bound otherwise; more memory never gets a
/// smaller suggestion.
pub proof fn lemma_suggested_ram(total_mb: u32, other_mb: u32)
    ensures
        2048 <= spec_suggested_ram(total_mb) <= 8192,
        4096 <= total_mb <= 16385 ==> spec_suggested_ram(total_mb) == total_mb / 2,
        total_mb < 4096 ==> spec_suggested_ram(total_mb) == 2048,
        total_mb > 16385 ==> spec_suggested_ram(total_mb) == 8192,
        total_mb <= other_mb ==> spec_suggested_ram(total_mb) <= spec_suggested_ram(other_mb),
{
}

/// The RAM suggested for this machine.
pub fn suggested_ram_mb() -> (r: u32)
    ensures
        2048 <= r <= 8192,
{
    suggested_ram_for(total_ram_mb())
}

// ---------------------------------------------------------------------------
// Offline identity
// ---------------------------------------------------------------------------

/// The MD5 digest of `data` (16 bytes), as the `md-5` crate computes it.
pub uninterp spec fn md5_digest_of(data: Seq<u8>) -> Seq<u8>;

/// `md5::Md5::digest`: the MD5 digest of the bytes.
#[verifier::external_body]
fn md5_digest(data: &[u8]) -> (d: [u8; 16])
    ensures
        d@ == md5_digest_of(data@),
{
    md5::Md5::digest(data).into()
}

/// A player UUID, as its sixteen bytes.
#[derive(Debug, Clone, Copy, PartialEq, Eq)]
pub struct PlayerUuid {
    pub bytes: [u8; 16],
}

/// Lower-case hexadecimal groups of 8-4-4-4-12 digits joined by hyphens.
pub open spec fn spec_hyphenated(b: Seq<u8>) -> Seq<char> {
    spec_hex_lower(b.subrange(0, 4)) + "-"@ + spec_hex_lower(b.subrange(4, 6)) + "-"@
        + spec_hex_lower(b.subrange(6, 8)) + "-"@ + spec_hex_lower(b.subrange(8, 10)) + "-"@
        + spec_hex_lower(b.subrange(10, 16))
}

/// `uuid::Uuid::from_bytes(..).to_string()`: the hyphenated lower-case form.
#[verifier::external_body]
fn uuid_hyphenated(bytes: [u8; 16]) -> (s: String)
    ensures
        s@ == spec_hyphenated(bytes@),
{
    uuid::Uuid::from_bytes(bytes).to_string()
}

impl PlayerUuid {
    /// The UUID as text, e.g. `b50ad385-829d-3141-a216-7e7d7539ba7f`.
    pub fn to_hyphenated_string(&self) -> (s: String)
        ensures
            s@ == spec_hyphenated(self.bytes@),
    {
        uuid_hyphenated(self.bytes)
    }
}

/// The bytes of the offline UUID of a name: the MD5 of
/// `"OfflinePlayer:" + name` (UTF-8), with the version nibble set to 3 and
/// the RFC 4122 variant bits set.
pub open spec fn offline_uuid_bytes(username: Seq<char>) -> Seq<u8> {
    let d = md5_digest_of(vstd::utf8::encode_utf8("OfflinePlayer:"@ + username));
    d.update(6, (d[6] & 0x0f) | 0x30).update(8, (d[8] & 0x3f) | 0x80)
}

/// The deterministic "offline" UUID a vanilla server gives a player in
/// offline mode: Java's `UUID.nameUUIDFromBytes` of `"OfflinePlayer:" + name`.
pub fn offline_uuid(username: &str) -> (u: PlayerUuid)
    ensures
        u.bytes@ == offline_uuid_bytes(username@),
        u.bytes[6] >> 4u8 == 3,
        u.bytes[8] >> 6u8 == 2,
{
    let input = concat2("OfflinePlayer:", username);
    let d = md5_digest(input.as_str().as_bytes());
    let d6 = d[6];
    let d8 = d[8];
    let b6 = (d6 & 0x0f) | 0x30;
    let b8 = (d8 & 0x3f) | 0x80;
    let bytes: [u8; 16] = [
        d[0], d[1], d[2], d[3], d[4], d[5], b6, d[7], b8, d[9], d[10], d[11], d[12], d[13], d[14],
        d[15],
    ];
    proof {
        assert(b6 >> 4u8 == 3) by (bit_vector)
            requires
                b6 == (d6 & 0x0f) | 0x30,
        ;
        assert(b8 >> 6u8 == 2) by (bit_vector)
            requires
                b8 == (d8 & 0x3f) | 0x80,
        ;
        assert(bytes@ =~= offline_uuid_bytes(username@));
    }
    PlayerUuid { bytes }
}

/// The offline UUID depends on the name only: the same name always gives the
/// same UUID.
pub proof fn lemma_offline_uuid_stable(a: Seq<char>, b: Seq<char>)
    requires
        a == b,
    ensures
        offline_uuid_bytes(a) == offline_uuid_bytes(b),
{
}

} // verus!
