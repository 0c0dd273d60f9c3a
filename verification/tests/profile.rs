use segestria_core::profile::{offline_uuid, ram_mb_from_bytes, suggested_ram_for, suggested_ram_mb, Settings};

#[test]
fn offline_uuid_is_stable() {
    let a = offline_uuid("Notch");
    let b = offline_uuid("Notch");
    assert_eq!(a, b);
    assert_ne!(a, offline_uuid("jeb_"));
}

#[test]
fn offline_uuid_matches_vanilla_offline_mode() {
    assert_eq!(offline_uuid("Notch").to_hyphenated_string(), "b50ad385-829d-3141-a216-7e7d7539ba7f");
    assert_eq!(offline_uuid("jeb_").to_hyphenated_string(), "a762f560-4fce-3236-812a-b80efff0b62b");
}

#[test]
fn offline_uuid_is_version_3_rfc_4122() {
    for name in ["Notch", "jeb_", "", "Ñandú"] {
        let u = offline_uuid(name);
        assert_eq!(u.bytes[6] >> 4, 3);
        assert_eq!(u.bytes[8] >> 6, 2);
        let s = u.to_hyphenated_string();
        assert_eq!(s.len(), 36);
        assert_eq!(&s[14..15], "3");
    }
}

#[test]
fn suggested_ram_is_half_the_machine_clamped() {
    assert_eq!(suggested_ram_for(0), 2048);
    assert_eq!(suggested_ram_for(2048), 2048);
    assert_eq!(suggested_ram_for(4097), 2048);
    assert_eq!(suggested_ram_for(5000), 2500);
    assert_eq!(suggested_ram_for(8192), 4096);
    assert_eq!(suggested_ram_for(16384), 8192);
    assert_eq!(suggested_ram_for(65536), 8192);
    assert_eq!(suggested_ram_for(u32::MAX), 8192);
}

#[test]
fn suggested_ram_of_this_machine_is_in_range() {
    let r = suggested_ram_mb();
    assert!((2048..=8192).contains(&r));
}

#[test]
fn ram_megabytes_from_bytes() {
    assert_eq!(ram_mb_from_bytes(0), 0);
    assert_eq!(ram_mb_from_bytes(1024 * 1024 - 1), 0);
    assert_eq!(ram_mb_from_bytes(1024 * 1024), 1);
    assert_eq!(ram_mb_from_bytes(16 * 1024 * 1024 * 1024), 16384);
}

#[test]
fn default_settings() {
    let s = Settings::default();
    assert_eq!(s.username, "");
    assert_eq!(s.server_ip, "");
    assert_eq!(s.server_port, 25565);
    assert_eq!(s.allocated_ram_mb, None);
    assert_eq!(s.extra_jvm_args, "");
}
