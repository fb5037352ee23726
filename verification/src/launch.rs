//! From the command line to a running worker: which listeners to start, with
//! what configuration, and how a supervised worker child is set up.

use crate::config;
use crate::config::{
    AccelerationProfile, MediaIntelligenceConfig, ACCEL_PROFILE_VAR, DISABLE_ACCEL_VAR,
};
use vstd::prelude::*;
use vstd::string::*;

verus! {

/// The acceleration profile as given on the command line.
#[derive(Debug, Clone, Copy, PartialEq, Eq, Structural)]
pub enum AccelProfileArg {
    Balanced,
    LowVram,
}

/// The profile that a command line argument means.
pub open spec fn profile_meant(arg: AccelProfileArg) -> AccelerationProfile {
    match arg {
        AccelProfileArg::Balanced => AccelerationProfile::Balanced,
        AccelProfileArg::LowVram => AccelerationProfile::LowVram,
    }
}

impl From<AccelProfileArg> for AccelerationProfile {
    fn from(value: AccelProfileArg) -> (res: Self) {
        match value {
            AccelProfileArg::Balanced => AccelerationProfile::Balanced,
            AccelProfileArg::LowVram => AccelerationProfile::LowVram,
        }
    }
}

impl vstd::std_specs::convert::FromSpecImpl<AccelProfileArg> for AccelerationProfile {
    open spec fn obeys_from_spec() -> bool {
        true
    }

    open spec fn from_spec(value: AccelProfileArg) -> Self {
        profile_meant(value)
    }
}

/// The options of the command line.
#[derive(Debug)]
pub struct LaunchOptions {
    /// Whether a socket path is given. Without one, and without supervision,
    /// the worker does not listen on a socket.
    pub has_socket: bool,
    /// Address of the HTTP listener, if any.
    pub http: Option<String>,
    /// Address of the supervised HTTP listener, if any. The listener stays up
    /// and a worker child is spawned for the actual inference.
    pub supervise_http: Option<String>,
    /// Model directory, in place of the one derived from the environment.
    pub models_dir: Option<String>,
    /// Idle seconds before the worker exits. Under supervision this is the idle
    /// time of the worker child. If omitted, low VRAM uses 30 seconds, and
    /// balanced uses none for a direct worker and 900 seconds under
    /// supervision.
    pub idle_exit_secs: Option<u64>,
    pub disable_ocr: bool,
    pub disable_clip: bool,
    pub disable_face: bool,
    pub disable_stt: bool,
    pub disable_hardware_acceleration: bool,
    pub accel_profile: Option<AccelProfileArg>,
}

/// Why the worker cannot be started.
#[derive(Debug, Clone, Copy, PartialEq, Eq, Structural)]
pub enum LaunchError {
    /// No listener is asked for.
    NoListener,
    /// A socket is asked for on a platform without Unix sockets.
    SocketUnsupported,
}

/// What to say of a launch error.
pub open spec fn launch_error_text(error: LaunchError) -> Seq<char> {
    match error {
        LaunchError::NoListener => "must specify --socket, --http, or --supervise-http"@,
        LaunchError::SocketUnsupported =>
            "--socket (UDS) is not supported on this platform; use --http instead"@,
    }
}

impl LaunchError {
    /// What to say of the error.
    pub fn message(self) -> (res: &'static str)
        ensures
            res@ == launch_error_text(self),
            self == LaunchError::NoListener ==> res@
                == "must specify --socket, --http, or --supervise-http"@,
            self == LaunchError::SocketUnsupported ==> res@
                == "--socket (UDS) is not supported on this platform; use --http instead"@,
    {
        match self {
            LaunchError::NoListener => "must specify --socket, --http, or --supervise-http",
            LaunchError::SocketUnsupported =>
                "--socket (UDS) is not supported on this platform; use --http instead",
        }
    }
}

/// How to run.
#[derive(Debug, PartialEq, Eq)]
pub enum LaunchPlan {
    /// Keep an HTTP listener up at `addr`, in front of a worker child.
    Supervised { addr: String },
    /// Host the service in this process.
    Direct {
        /// Listen on the given socket, and remove it at the end.
        serve_socket: bool,
        /// Listen for HTTP at this address.
        http: Option<String>,
        /// Exit after so many idle seconds; zero: never.
        idle_exit_secs: u64,
    },
}

/// The idle time of a worker that hosts the service itself, in seconds.
pub open spec fn direct_idle(requested: Option<u64>, profile: AccelerationProfile) -> u64 {
    match requested {
        Some(secs) => secs,
        None => match profile {
            AccelerationProfile::Balanced => 0,
            AccelerationProfile::LowVram => 30,
        },
    }
}

/// The idle time of a supervised worker child, in seconds.
pub open spec fn supervised_idle(requested: Option<u64>, profile: AccelerationProfile) -> u64 {
    match requested {
        Some(secs) => secs,
        None => match profile {
            AccelerationProfile::Balanced => 900,
            AccelerationProfile::LowVram => 30,
        },
    }
}

/// The idle time of a worker that hosts the service itself, in seconds.
pub fn direct_idle_secs(requested: Option<u64>, profile: AccelerationProfile) -> (res: u64)
    ensures
        res == direct_idle(requested, profile),
        requested matches Some(secs) ==> res == secs,
{
    match requested {
        Some(secs) => secs,
        None => match profile {
            AccelerationProfile::Balanced => 0,
            AccelerationProfile::LowVram => 30,
        },
    }
}

/// The idle time of a supervised worker child, in seconds.
pub fn supervised_idle_secs(requested: Option<u64>, profile: AccelerationProfile) -> (res: u64)
    ensures
        res == supervised_idle(requested, profile),
        requested matches Some(secs) ==> res == secs,
{
    match requested {
        Some(secs) => secs,
        None => match profile {
            AccelerationProfile::Balanced => 900,
            AccelerationProfile::LowVram => 30,
        },
    }
}

impl LaunchOptions {
    /// The configuration to run with: `base`, with what the command line says
    /// in its place. Acceleration that `base` switches off stays off.
    pub fn configure(&self, base: MediaIntelligenceConfig) -> (res: MediaIntelligenceConfig)
        ensures
            res.models_dir@ == (match self.models_dir {
                Some(dir) => dir@,
                None => base.models_dir@,
            }),
            res.acceleration_profile == (match self.accel_profile {
                Some(arg) => profile_meant(arg),
                None => base.acceleration_profile,
            }),
            self.accel_profile == Some(AccelProfileArg::Balanced) ==> res.acceleration_profile
                == AccelerationProfile::Balanced,
            self.accel_profile == Some(AccelProfileArg::LowVram) ==> res.acceleration_profile
                == AccelerationProfile::LowVram,
            res.disable_hardware_acceleration == (base.disable_hardware_acceleration
                || self.disable_hardware_acceleration),
            res.enable_ocr == !self.disable_ocr,
            res.enable_clip == !self.disable_clip,
            res.enable_face == !self.disable_face,
            res.enable_stt == !self.disable_stt,
            res.python_sidecar_dir == base.python_sidecar_dir,
            res.ocr_det_max_side == base.ocr_det_max_side,
    {
        let mut res = base;
        if let Some(arg) = self.accel_profile {
            res.acceleration_profile = AccelerationProfile::from(arg);
        }
        if let Some(dir) = &self.models_dir {
            res.models_dir = dir.clone();
        }
        res.enable_ocr = !self.disable_ocr;
        res.enable_clip = !self.disable_clip;
        res.enable_face = !self.disable_face;
        res.enable_stt = !self.disable_stt;
        res.disable_hardware_acceleration = res.disable_hardware_acceleration
            || self.disable_hardware_acceleration;
        res
    }

    /// Decides how to run with the acceleration profile of the configuration.
    /// Supervision goes before the other listeners.
    pub fn plan(&self, profile: AccelerationProfile, sockets_supported: bool) -> (res: Result<
        LaunchPlan,
        LaunchError,
    >)
        ensures
            match self.supervise_http {
                Some(wanted) => res matches Ok(LaunchPlan::Supervised { addr }) && addr@ == wanted@,
                None => if !self.has_socket && self.http is None {
                    res == Err::<LaunchPlan, LaunchError>(LaunchError::NoListener)
                } else if self.has_socket && !sockets_supported {
                    res == Err::<LaunchPlan, LaunchError>(LaunchError::SocketUnsupported)
                } else {
                    res matches Ok(LaunchPlan::Direct { serve_socket, http, idle_exit_secs })
                        && serve_socket == self.has_socket && config::text_of(http)
                        == config::text_of(self.http) && idle_exit_secs == direct_idle(
                        self.idle_exit_secs,
                        profile,
                    )
                },
            },
            res matches Ok(LaunchPlan::Direct { serve_socket, http, idle_exit_secs }) ==> {
                &&& self.http matches Some(wanted) ==> http matches Some(addr) && addr@ == wanted@
                &&& self.http is None ==> http is None
                &&& self.idle_exit_secs matches Some(secs) ==> idle_exit_secs == secs
            },
    {
        match &self.supervise_http {
            Some(wanted) => Ok(LaunchPlan::Supervised { addr: wanted.clone() }),
            None => {
                let http = match &self.http {
                    Some(addr) => Some(addr.clone()),
                    None => None,
                };
                if !self.has_socket && http.is_none() {
                    Err(LaunchError::NoListener)
                } else if self.has_socket && !sockets_supported {
                    Err(LaunchError::SocketUnsupported)
                } else {
                    Ok(
                        LaunchPlan::Direct {
                            serve_socket: self.has_socket,
                            http,
                            idle_exit_secs: direct_idle_secs(self.idle_exit_secs, profile),
                        },
                    )
                }
            },
        }
    }
}

/// A variable set in the environment of a worker child.
#[derive(Debug, PartialEq, Eq)]
pub struct EnvVar {
    pub name: String,
    pub value: String,
}

/// The contents of an `EnvVar`.
pub struct EnvVarView {
    pub name: Seq<char>,
    pub value: Seq<char>,
}

impl View for EnvVar {
    type V = EnvVarView;

    open spec fn view(&self) -> EnvVarView {
        EnvVarView { name: self.name@, value: self.value@ }
    }
}

/// Where the socket of the worker child is.
#[derive(Debug, PartialEq, Eq)]
pub enum SocketLocation {
    /// At the path given on the command line.
    Given,
    /// At this name in this directory.
    InDirectory { dir: String, file_name: String },
}

/// How to run a worker child behind an HTTP listener.
#[derive(Debug, PartialEq, Eq)]
pub struct SupervisedPlan {
    pub socket: SocketLocation,
    /// Address of an HTTP listener of the child, if any.
    pub http_addr: Option<String>,
    pub models_dir: String,
    /// Idle seconds after which the proxy reaps the child; zero: never.
    pub idle_secs: u64,
    /// The same for the child itself, as far as the number fits.
    pub child_idle_secs: u32,
    /// What to set in the environment of the child.
    pub extra_env: Vec<EnvVar>,
    /// Whether the child runs on another host.
    pub remote: bool,
}

/// The variables set for a worker child with this profile and switch.
pub open spec fn child_env(profile: AccelerationProfile, disabled: bool) -> Seq<EnvVarView> {
    let chosen = EnvVarView { name: ACCEL_PROFILE_VAR@, value: config::profile_name(profile) };
    if disabled {
        seq![chosen, EnvVarView { name: DISABLE_ACCEL_VAR@, value: "1"@ }]
    } else {
        seq![chosen]
    }
}

/// Plans the worker child for these options and configuration, with the local
/// data directory `data_local`. The child runs on this host and listens on its
/// socket alone.
pub fn run_supervised_http(
    options: &LaunchOptions,
    config: &MediaIntelligenceConfig,
    data_local: String,
) -> (res: SupervisedPlan)
    ensures
        if options.has_socket {
            res.socket == SocketLocation::Given
        } else {
            res.socket matches SocketLocation::InDirectory { dir, file_name } && dir@ == data_local@
                && file_name@ == "media-intelligence-worker-supervised.sock"@
        },
        res.http_addr is None,
        !res.remote,
        res.models_dir@ == config.models_dir@,
        res.idle_secs == supervised_idle(options.idle_exit_secs, config.acceleration_profile),
        options.idle_exit_secs matches Some(secs) ==> res.idle_secs == secs,
        res.child_idle_secs == if res.idle_secs > u32::MAX {
            u32::MAX as u64
        } else {
            res.idle_secs
        },
        res.extra_env@.map_values(|var: EnvVar| var@) == child_env(
            config.acceleration_profile,
            config.disable_hardware_acceleration,
        ),
{
    let socket = if options.has_socket {
        SocketLocation::Given
    } else {
        SocketLocation::InDirectory {
            dir: data_local,
            file_name: "media-intelligence-worker-supervised.sock".to_owned(),
        }
    };
    let idle_secs: u64 = supervised_idle_secs(options.idle_exit_secs, config.acceleration_profile);
    let child_idle_secs: u32 = if idle_secs > u32::MAX as u64 {
        u32::MAX
    } else {
        idle_secs as u32
    };
    let mut extra_env: Vec<EnvVar> = Vec::new();
    extra_env.push(
        EnvVar {
            name: ACCEL_PROFILE_VAR.to_owned(),
            value: config.acceleration_profile.as_str().to_owned(),
        },
    );
    if config.disable_hardware_acceleration {
        extra_env.push(EnvVar { name: DISABLE_ACCEL_VAR.to_owned(), value: "1".to_owned() });
    }
    assert(extra_env@.map_values(|var: EnvVar| var@) =~= child_env(
        config.acceleration_profile,
        config.disable_hardware_acceleration,
    ));
    SupervisedPlan {
        socket,
        http_addr: None,
        models_dir: config.models_dir.clone(),
        idle_secs,
        child_idle_secs,
        extra_env,
        remote: false,
    }
}

/// The value that `env` sets for `name`, if any. The last one counts.
pub open spec fn value_set(env: Seq<EnvVarView>, name: Seq<char>) -> Option<Seq<char>>
    decreases env.len(),
{
    if env.len() == 0 {
        None
    } else if env.last().name == name {
        Some(env.last().value)
    } else {
        value_set(env.drop_last(), name)
    }
}

/// What a child reads for `name` in the environment of its parent, where the
/// value is `inherited`, with `env` set on top.
pub open spec fn value_seen(
    inherited: Option<Seq<char>>,
    env: Seq<EnvVarView>,
    name: Seq<char>,
) -> Option<Seq<char>> {
    match value_set(env, name) {
        Some(value) => Some(value),
        None => inherited,
    }
}

/// A worker child finds in its environment the settings that its supervisor
/// runs with, whatever else the environment of the supervisor holds: the same
/// profile, and acceleration switched off exactly if the supervisor has it
/// switched off. A supervisor whose own environment switches acceleration off
/// always has it switched off.
pub proof fn child_sees_the_same_settings(
    parent: config::EnvSettingsView,
    profile: AccelerationProfile,
    disabled: bool,
)
    requires
        config::acceleration_disabled_by(parent.disable_accel) ==> disabled,
    ensures
        config::profile_from(
            value_seen(parent.accel_profile, child_env(profile, disabled), ACCEL_PROFILE_VAR@),
        ) == profile,
        config::acceleration_disabled_by(
            value_seen(parent.disable_accel, child_env(profile, disabled), DISABLE_ACCEL_VAR@),
        ) == disabled,
{
    reveal_strlit("TOKIMO_MEDIA_INTELLIGENCE_ACCEL_PROFILE");
    reveal_strlit("TOKIMO_MEDIA_INTELLIGENCE_DISABLE_ACCEL");
    reveal_strlit("1");
    assert(ACCEL_PROFILE_VAR@[26] != DISABLE_ACCEL_VAR@[26]);
    let env = child_env(profile, disabled);
    reveal_with_fuel(value_set, 3);
    if disabled {
        assert(env.drop_last() =~= child_env(profile, false));
    }
    assert(child_env(profile, false).drop_last() =~= Seq::empty());
    config::profile_name_round_trips(profile);
    crate::text::lemma_already_normalized("1"@);
}

/// An idle time given on the command line is the one used, whatever the
/// profile. Without one, low VRAM has the same idle time with and without
/// supervision, and balanced never exits on its own but is reaped under
/// supervision, thirty times later than low VRAM.
pub proof fn requested_idle_time_is_used(secs: u64, profile: AccelerationProfile)
    ensures
        direct_idle(Some(secs), profile) == secs,
        supervised_idle(Some(secs), profile) == secs,
        direct_idle(None, AccelerationProfile::LowVram) == 30,
        supervised_idle(None, AccelerationProfile::LowVram) == direct_idle(
            None,
            AccelerationProfile::LowVram,
        ),
        direct_idle(None, AccelerationProfile::Balanced) == 0,
        supervised_idle(None, AccelerationProfile::Balanced) == 30 * supervised_idle(
            None,
            AccelerationProfile::LowVram,
        ),
{
}

/// The worker child gets nothing in its environment but its profile and, where
/// acceleration is switched off, that it is.
pub proof fn child_gets_nothing_else(profile: AccelerationProfile, disabled: bool, i: int)
    requires
        0 <= i < child_env(profile, disabled).len(),
    ensures
        ({
            let var = child_env(profile, disabled)[i];
            ||| var.name == "TOKIMO_MEDIA_INTELLIGENCE_ACCEL_PROFILE"@ && config::profile_of(
                var.value,
            ) == profile
            ||| var.name == "TOKIMO_MEDIA_INTELLIGENCE_DISABLE_ACCEL"@ && disabled && var.value
                == "1"@
        }),
        child_env(profile, disabled).len() <= 2,
{
    config::profile_name_round_trips(profile);
}

/// The view of a variable holds its whole name and value.
pub proof fn variable_view_is_faithful(var: EnvVar)
    ensures
        var@.name == var.name@,
        var@.value == var.value@,
{
}

/// A profile named on the command line is the profile meant.
pub proof fn arguments_mean_their_profiles()
    ensures
        profile_meant(AccelProfileArg::Balanced) == AccelerationProfile::Balanced,
        profile_meant(AccelProfileArg::LowVram) == AccelerationProfile::LowVram,
{
}

} // verus!
