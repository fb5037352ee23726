use tokimo_media_intelligence::config::{
    acceleration_profile_from_env, hardware_acceleration_disabled_by_env, AccelerationProfile,
    EnvSettings, MediaIntelligenceConfig,
};
use tokimo_media_intelligence::launch::{
    direct_idle_secs, run_supervised_http, supervised_idle_secs, AccelProfileArg, EnvVar,
    LaunchError, LaunchOptions, LaunchPlan, SocketLocation,
};

fn options() -> LaunchOptions {
    LaunchOptions {
        has_socket: false,
        http: None,
        supervise_http: None,
        models_dir: None,
        idle_exit_secs: None,
        disable_ocr: false,
        disable_clip: false,
        disable_face: false,
        disable_stt: false,
        disable_hardware_acceleration: false,
        accel_profile: None,
    }
}

fn config(disable: Option<&str>, profile: Option<&str>) -> MediaIntelligenceConfig {
    MediaIntelligenceConfig::default(EnvSettings {
        data_local_path: Some("/d".to_string()),
        disable_accel: disable.map(str::to_string),
        accel_profile: profile.map(str::to_string),
    })
}

#[test]
fn profile_arguments() {
    assert_eq!(AccelerationProfile::from(AccelProfileArg::Balanced), AccelerationProfile::Balanced);
    assert_eq!(AccelerationProfile::from(AccelProfileArg::LowVram), AccelerationProfile::LowVram);
}

#[test]
fn command_line_goes_before_the_environment() {
    let mut options = options();
    let kept = options.configure(config(Some("1"), Some("low")));
    assert_eq!(kept.models_dir, "/d/media-intelligence");
    assert_eq!(kept.acceleration_profile, AccelerationProfile::LowVram);
    assert!(kept.disable_hardware_acceleration);
    assert!(kept.enable_ocr && kept.enable_clip && kept.enable_face && kept.enable_stt);

    options.models_dir = Some("/m".to_string());
    options.accel_profile = Some(AccelProfileArg::Balanced);
    options.disable_clip = true;
    options.disable_stt = true;
    options.disable_hardware_acceleration = true;
    let changed = options.configure(config(None, Some("low")));
    assert_eq!(changed.models_dir, "/m");
    assert_eq!(changed.acceleration_profile, AccelerationProfile::Balanced);
    assert!(changed.disable_hardware_acceleration);
    assert!(changed.enable_ocr && !changed.enable_clip && changed.enable_face && !changed.enable_stt);
    assert_eq!(changed.python_sidecar_dir, None);
    assert_eq!(changed.ocr_det_max_side, None);
}

#[test]
fn idle_defaults() {
    let (balanced, low) = (AccelerationProfile::Balanced, AccelerationProfile::LowVram);
    assert_eq!(direct_idle_secs(None, balanced), 0);
    assert_eq!(direct_idle_secs(None, low), 30);
    assert_eq!(direct_idle_secs(Some(7), low), 7);
    assert_eq!(supervised_idle_secs(None, balanced), 900);
    assert_eq!(supervised_idle_secs(None, low), 30);
    assert_eq!(supervised_idle_secs(Some(0), balanced), 0);
}

#[test]
fn launch_plans() {
    let low = AccelerationProfile::LowVram;
    let mut options = options();
    assert_eq!(options.plan(low, true), Err(LaunchError::NoListener));
    options.has_socket = true;
    assert_eq!(options.plan(low, false), Err(LaunchError::SocketUnsupported));
    assert_eq!(
        options.plan(low, true),
        Ok(LaunchPlan::Direct { serve_socket: true, http: None, idle_exit_secs: 30 })
    );
    options.http = Some("0.0.0.0:5679".to_string());
    options.idle_exit_secs = Some(5);
    assert_eq!(
        options.plan(low, true),
        Ok(LaunchPlan::Direct {
            serve_socket: true,
            http: Some("0.0.0.0:5679".to_string()),
            idle_exit_secs: 5,
        })
    );
    options.supervise_http = Some(":1".to_string());
    assert_eq!(options.plan(low, false), Ok(LaunchPlan::Supervised { addr: ":1".to_string() }));
}

#[test]
fn launch_error_texts() {
    assert_eq!(
        LaunchError::NoListener.message(),
        "must specify --socket, --http, or --supervise-http"
    );
    assert_eq!(
        LaunchError::SocketUnsupported.message(),
        "--socket (UDS) is not supported on this platform; use --http instead"
    );
}

#[test]
fn supervised_child() {
    let mut options = options();
    let plan = run_supervised_http(&options, &config(None, None), "/d".to_string());
    assert_eq!(
        plan.socket,
        SocketLocation::InDirectory {
            dir: "/d".to_string(),
            file_name: "media-intelligence-worker-supervised.sock".to_string(),
        }
    );
    assert_eq!(plan.models_dir, "/d/media-intelligence");
    assert_eq!((plan.http_addr, plan.remote), (None, false));
    assert_eq!((plan.idle_secs, plan.child_idle_secs), (900, 900));
    assert_eq!(
        plan.extra_env,
        vec![EnvVar {
            name: "TOKIMO_MEDIA_INTELLIGENCE_ACCEL_PROFILE".to_string(),
            value: "balanced".to_string(),
        }]
    );

    options.has_socket = true;
    options.idle_exit_secs = Some(u32::MAX as u64 + 1);
    let plan = run_supervised_http(&options, &config(Some("on"), Some("low")), "/d".to_string());
    assert_eq!(plan.socket, SocketLocation::Given);
    assert_eq!((plan.idle_secs, plan.child_idle_secs), (u32::MAX as u64 + 1, u32::MAX));
    assert_eq!(
        plan.extra_env,
        vec![
            EnvVar {
                name: "TOKIMO_MEDIA_INTELLIGENCE_ACCEL_PROFILE".to_string(),
                value: "low_vram".to_string(),
            },
            EnvVar {
                name: "TOKIMO_MEDIA_INTELLIGENCE_DISABLE_ACCEL".to_string(),
                value: "1".to_string(),
            },
        ]
    );
}

#[test]
fn supervised_child_reads_the_same_settings() {
    for disable in [None, Some("1"), Some("no"), Some("TRUE")] {
        for profile in [None, Some("low"), Some("balanced")] {
            let options = options();
            let parent = options.configure(config(disable, profile));
            let plan = run_supervised_http(&options, &parent, "/d".to_string());
            let seen = |name: &str, inherited: Option<&str>| {
                plan.extra_env
                    .iter()
                    .rev()
                    .find(|var| var.name == name)
                    .map(|var| var.value.clone())
                    .or_else(|| inherited.map(str::to_string))
            };
            assert_eq!(
                acceleration_profile_from_env(seen("TOKIMO_MEDIA_INTELLIGENCE_ACCEL_PROFILE", profile)),
                parent.acceleration_profile
            );
            assert_eq!(
                hardware_acceleration_disabled_by_env(seen(
                    "TOKIMO_MEDIA_INTELLIGENCE_DISABLE_ACCEL",
                    disable
                )),
                parent.disable_hardware_acceleration
            );
        }
    }
}
