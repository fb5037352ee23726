use tokimo_media_intelligence::config::{
    acceleration_profile_from_env, data_local_path, hardware_acceleration_disabled_by_env,
    AccelerationProfile, EnvSettings, MediaIntelligenceConfig, ACCEL_PROFILE_VAR,
    DATA_LOCAL_PATH_VAR, DISABLE_ACCEL_VAR,
};
use tokimo_media_intelligence::text::{decimal, normalize};

fn some(value: &str) -> Option<String> {
    Some(value.to_string())
}

#[test]
fn profile_names() {
    assert_eq!(AccelerationProfile::Balanced.as_str(), "balanced");
    assert_eq!(AccelerationProfile::LowVram.as_str(), "low_vram");
    assert_eq!(AccelerationProfile::default(), AccelerationProfile::Balanced);
}

#[test]
fn profile_spellings() {
    for value in ["low_vram", "low-vram", "lowvram", "low"] {
        assert_eq!(AccelerationProfile::parse(value), AccelerationProfile::LowVram);
    }
    for value in ["balanced", "", "high", "low vram", "lo w", "l\u{d6}w", "low_vram2"] {
        assert_eq!(AccelerationProfile::parse(value), AccelerationProfile::Balanced);
    }
}

#[test]
fn profile_ignores_space_and_case() {
    assert_eq!(AccelerationProfile::parse(" \tLOW_vram\r\n"), AccelerationProfile::LowVram);
    assert_eq!(AccelerationProfile::parse("\u{3000}Low-VRAM\u{85}"), AccelerationProfile::LowVram);
    assert_eq!(AccelerationProfile::parse("\u{200b}low"), AccelerationProfile::Balanced);
}

#[test]
fn profile_names_parse_back() {
    for profile in [AccelerationProfile::Balanced, AccelerationProfile::LowVram] {
        assert_eq!(AccelerationProfile::parse(profile.as_str()), profile);
    }
}

#[test]
fn normalized_values() {
    assert_eq!(normalize("  On "), "on");
    assert_eq!(normalize("\u{a0}A B\u{2028}"), "a b");
    assert_eq!(normalize("\u{c4}Z"), "\u{c4}z");
    assert_eq!(normalize(" \n\t "), "");
    for u in 0..=0x10ffffu32 {
        if let Some(c) = char::from_u32(u) {
            let listed = matches!(
                u,
                0x09..=0x0d | 0x20 | 0x85 | 0xa0 | 0x1680 | 0x2000..=0x200a | 0x2028 | 0x2029
                    | 0x202f | 0x205f | 0x3000
            );
            assert_eq!(c.is_whitespace(), listed);
        }
    }
}

#[test]
fn decimal_numbers() {
    for n in [0u32, 7, 10, 99, 100, 4096, 1_000_000, u32::MAX] {
        assert_eq!(decimal(n), n.to_string());
    }
}

#[test]
fn variable_names() {
    assert_eq!(DATA_LOCAL_PATH_VAR, "TOKIMO_DATA_LOCAL_PATH");
    assert_eq!(DISABLE_ACCEL_VAR, "TOKIMO_MEDIA_INTELLIGENCE_DISABLE_ACCEL");
    assert_eq!(ACCEL_PROFILE_VAR, "TOKIMO_MEDIA_INTELLIGENCE_ACCEL_PROFILE");
}

#[test]
fn data_directory() {
    assert_eq!(data_local_path(None), "./.data");
    assert_eq!(data_local_path(some("/srv/data")), "/srv/data");
    assert_eq!(data_local_path(some("")), "");
    assert_eq!(data_local_path(some(" /x ")), " /x ");
}

#[test]
fn acceleration_switch() {
    for value in ["1", "true", "yes", "on", " TRUE ", "On\n", "YES"] {
        assert!(hardware_acceleration_disabled_by_env(some(value)));
    }
    for value in ["0", "false", "no", "off", "", "11", "y"] {
        assert!(!hardware_acceleration_disabled_by_env(some(value)));
    }
    assert!(!hardware_acceleration_disabled_by_env(None));
}

#[test]
fn profile_of_environment() {
    assert_eq!(acceleration_profile_from_env(None), AccelerationProfile::Balanced);
    assert_eq!(acceleration_profile_from_env(some("LOW")), AccelerationProfile::LowVram);
    assert_eq!(acceleration_profile_from_env(some("x")), AccelerationProfile::Balanced);
}

#[test]
fn default_configuration() {
    let config = MediaIntelligenceConfig::default(EnvSettings {
        data_local_path: None,
        disable_accel: None,
        accel_profile: None,
    });
    assert_eq!(config.models_dir, "./.data/media-intelligence");
    assert!(!config.disable_hardware_acceleration);
    assert_eq!(config.acceleration_profile, AccelerationProfile::Balanced);
    assert!(config.enable_ocr && config.enable_clip && config.enable_face && config.enable_stt);
    assert_eq!(config.python_sidecar_dir, None);
    assert_eq!(config.ocr_det_max_side, None);

    let config = MediaIntelligenceConfig::default(EnvSettings {
        data_local_path: some("/srv"),
        disable_accel: some("yes"),
        accel_profile: some("low"),
    });
    assert_eq!(config.models_dir, "/srv/media-intelligence");
    assert!(config.disable_hardware_acceleration);
    assert_eq!(config.acceleration_profile, AccelerationProfile::LowVram);
}
