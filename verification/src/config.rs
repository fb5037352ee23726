//! Service configuration and the settings read from the environment.

use crate::text;
use vstd::prelude::*;
use vstd::string::*;

verus! {

/// Environment variable that names the local data directory.
pub const DATA_LOCAL_PATH_VAR: &'static str = "TOKIMO_DATA_LOCAL_PATH";

/// Environment variable that switches hardware acceleration off.
pub const DISABLE_ACCEL_VAR: &'static str = "TOKIMO_MEDIA_INTELLIGENCE_DISABLE_ACCEL";

/// Environment variable that selects the acceleration profile.
pub const ACCEL_PROFILE_VAR: &'static str = "TOKIMO_MEDIA_INTELLIGENCE_ACCEL_PROFILE";

/// How much accelerator memory the service may keep occupied.
#[derive(Debug, Clone, Copy, PartialEq, Eq, Structural)]
pub enum AccelerationProfile {
    Balanced,
    LowVram,
}

/// The canonical name of a profile.
pub open spec fn profile_name(profile: AccelerationProfile) -> Seq<char> {
    match profile {
        AccelerationProfile::Balanced => "balanced"@,
        AccelerationProfile::LowVram => "low_vram"@,
    }
}

/// The profile that a setting value selects: low VRAM for one of its four
/// spellings, balanced for everything else.
pub open spec fn profile_of(value: Seq<char>) -> AccelerationProfile {
    let v = text::normalized(value);
    if v == "low_vram"@ || v == "low-vram"@ || v == "lowvram"@ || v == "low"@ {
        AccelerationProfile::LowVram
    } else {
        AccelerationProfile::Balanced
    }
}

impl Default for AccelerationProfile {
    fn default() -> (res: Self)
        ensures
            res == AccelerationProfile::Balanced,
    {
        AccelerationProfile::Balanced
    }
}

impl AccelerationProfile {
    /// The canonical name of the profile.
    #[must_use]
    pub fn as_str(self) -> (res: &'static str)
        ensures
            res@ == profile_name(self),
            self == AccelerationProfile::Balanced ==> res@ == "balanced"@,
            self == AccelerationProfile::LowVram ==> res@ == "low_vram"@,
    {
        match self {
            Self::Balanced => "balanced",
            Self::LowVram => "low_vram",
        }
    }

    /// Reads a profile from a setting value. White space around the value and
    /// letter case do not matter; an unknown value means balanced.
    #[must_use]
    pub fn parse(value: &str) -> (res: Self)
        ensures
            res == profile_of(value@),
            res == AccelerationProfile::LowVram <==> {
                let v = text::lowered(text::trimmed(value@));
                v == "low_vram"@ || v == "low-vram"@ || v == "lowvram"@ || v == "low"@
            },
    {
        let normal = text::normalize(value);
        let v = normal.as_str();
        if str::eq(v, "low_vram") || str::eq(v, "low-vram") || str::eq(v, "lowvram") || str::eq(
            v,
            "low",
        ) {
            Self::LowVram
        } else {
            Self::Balanced
        }
    }
}

/// AI service configuration, constructed by the host application.
#[derive(Debug, Clone)]
pub struct MediaIntelligenceConfig {
    pub models_dir: String,
    pub disable_hardware_acceleration: bool,
    pub acceleration_profile: AccelerationProfile,
    pub enable_ocr: bool,
    pub enable_clip: bool,
    pub enable_face: bool,
    pub enable_stt: bool,
    /// Optional override for the embedded Python OCR sidecar source directory.
    /// `None` resolves to `<worker-dir>/python` or `CARGO_MANIFEST_DIR/python`.
    pub python_sidecar_dir: Option<String>,
    /// Detection resolution limit: longest image side in pixels.
    /// `None` uses the built-in default (4096). Lower values speed up detection
    /// at the cost of missing small text.
    pub ocr_det_max_side: Option<u32>,
}

/// The settings found in the environment of the process. A variable that is
/// unset, or whose value is not Unicode, is `None`.
#[derive(Debug)]
pub struct EnvSettings {
    /// Value of `TOKIMO_DATA_LOCAL_PATH`.
    pub data_local_path: Option<String>,
    /// Value of `TOKIMO_MEDIA_INTELLIGENCE_DISABLE_ACCEL`.
    pub disable_accel: Option<String>,
    /// Value of `TOKIMO_MEDIA_INTELLIGENCE_ACCEL_PROFILE`.
    pub accel_profile: Option<String>,
}

/// The contents of an `EnvSettings`.
pub struct EnvSettingsView {
    pub data_local_path: Option<Seq<char>>,
    pub disable_accel: Option<Seq<char>>,
    pub accel_profile: Option<Seq<char>>,
}

/// The text of an optional string.
pub open spec fn text_of(value: Option<String>) -> Option<Seq<char>> {
    match value {
        Some(v) => Some(v@),
        None => None,
    }
}

impl View for EnvSettings {
    type V = EnvSettingsView;

    open spec fn view(&self) -> EnvSettingsView {
        EnvSettingsView {
            data_local_path: text_of(self.data_local_path),
            disable_accel: text_of(self.disable_accel),
            accel_profile: text_of(self.accel_profile),
        }
    }
}

/// The local data directory for a value of `TOKIMO_DATA_LOCAL_PATH`.
pub open spec fn data_local_path_of(var: Option<Seq<char>>) -> Seq<char> {
    match var {
        Some(v) => v,
        None => "./.data"@,
    }
}

/// Whether a value of `TOKIMO_MEDIA_INTELLIGENCE_DISABLE_ACCEL` switches
/// acceleration off.
pub open spec fn acceleration_disabled_by(var: Option<Seq<char>>) -> bool {
    match var {
        Some(value) => {
            let v = text::normalized(value);
            v == "1"@ || v == "true"@ || v == "yes"@ || v == "on"@
        },
        None => false,
    }
}

/// The profile for a value of `TOKIMO_MEDIA_INTELLIGENCE_ACCEL_PROFILE`.
pub open spec fn profile_from(var: Option<Seq<char>>) -> AccelerationProfile {
    match var {
        Some(v) => profile_of(v),
        None => AccelerationProfile::Balanced,
    }
}

/// The local data directory: the value of `TOKIMO_DATA_LOCAL_PATH` as it
/// stands, `./.data` without one.
pub fn data_local_path(var: Option<String>) -> (res: String)
    ensures
        res@ == data_local_path_of(text_of(var)),
        match var {
            Some(v) => res@ == v@,
            None => res@ == "./.data"@,
        },
{
    match var {
        Some(v) => v,
        None => "./.data".to_owned(),
    }
}

/// Whether the value of `TOKIMO_MEDIA_INTELLIGENCE_DISABLE_ACCEL` is one of
/// `1`, `true`, `yes` and `on`, up to letter case and white space around it.
pub fn hardware_acceleration_disabled_by_env(var: Option<String>) -> (res: bool)
    ensures
        res == acceleration_disabled_by(text_of(var)),
        res <==> (var matches Some(value) && {
            let v = text::lowered(text::trimmed(value@));
            v == "1"@ || v == "true"@ || v == "yes"@ || v == "on"@
        }),
{
    match var {
        Some(value) => {
            let normal = text::normalize(value.as_str());
            let v = normal.as_str();
            str::eq(v, "1") || str::eq(v, "true") || str::eq(v, "yes") || str::eq(v, "on")
        },
        None => false,
    }
}

/// The profile that the value of `TOKIMO_MEDIA_INTELLIGENCE_ACCEL_PROFILE`
/// selects, balanced without one.
pub fn acceleration_profile_from_env(var: Option<String>) -> (res: AccelerationProfile)
    ensures
        res == profile_from(text_of(var)),
        match var {
            Some(v) => res == profile_of(v@),
            None => res == AccelerationProfile::Balanced,
        },
{
    match var {
        Some(v) => AccelerationProfile::parse(v.as_str()),
        None => AccelerationProfile::Balanced,
    }
}

impl MediaIntelligenceConfig {
    /// The configuration that the environment asks for: models below the local
    /// data directory, every feature on, no overrides.
    pub fn default(env: EnvSettings) -> (res: Self)
        ensures
            res.models_dir@ == data_local_path_of(env@.data_local_path) + "/media-intelligence"@,
            res.models_dir@ == (match env.data_local_path {
                Some(v) => v@,
                None => "./.data"@,
            }) + "/media-intelligence"@,
            res.disable_hardware_acceleration == acceleration_disabled_by(env@.disable_accel),
            res.acceleration_profile == profile_from(env@.accel_profile),
            res.enable_ocr,
            res.enable_clip,
            res.enable_face,
            res.enable_stt,
            res.python_sidecar_dir is None,
            res.ocr_det_max_side is None,
    {
        let mut models_dir = data_local_path(env.data_local_path);
        models_dir.append("/media-intelligence");
        let acceleration_profile = acceleration_profile_from_env(env.accel_profile);
        MediaIntelligenceConfig {
            models_dir,
            disable_hardware_acceleration: hardware_acceleration_disabled_by_env(
                env.disable_accel,
            ),
            acceleration_profile,
            enable_ocr: true,
            enable_clip: true,
            enable_face: true,
            enable_stt: true,
            python_sidecar_dir: None,
            ocr_det_max_side: None,
        }
    }
}

/// The canonical name of a profile parses to that profile.
pub proof fn profile_name_round_trips(profile: AccelerationProfile)
    ensures
        profile_of(profile_name(profile)) == profile,
{
    reveal_strlit("balanced");
    reveal_strlit("low_vram");
    reveal_strlit("low-vram");
    reveal_strlit("lowvram");
    reveal_strlit("low");
    text::lemma_already_normalized(profile_name(profile));
    assert("balanced"@[0] != "low_vram"@[0]);
    assert("balanced"@[0] != "low-vram"@[0]);
    assert("balanced"@[0] != "lowvram"@[0]);
    assert("balanced"@[0] != "low"@[0]);
}

/// White space around a setting value changes neither the profile it selects
/// nor whether it switches acceleration off.
pub proof fn settings_ignore_outer_space(a: Seq<char>, value: Seq<char>, b: Seq<char>)
    requires
        text::all_white_space(a),
        text::all_white_space(b),
    ensures
        profile_of(a + value + b) == profile_of(value),
        acceleration_disabled_by(Some(a + value + b)) == acceleration_disabled_by(Some(value)),
{
    text::outer_space_is_ignored(a, value, b);
}

/// The case of ASCII letters in a setting value changes neither the profile it
/// selects nor whether it switches acceleration off.
pub proof fn settings_ignore_letter_case(value: Seq<char>, other: Seq<char>)
    requires
        text::lowered(value) == text::lowered(other),
    ensures
        profile_of(value) == profile_of(other),
        acceleration_disabled_by(Some(value)) == acceleration_disabled_by(Some(other)),
{
    text::letter_case_is_ignored(value, other);
}

/// The low VRAM profile is selected by exactly four spellings, whatever the
/// case of their letters and the white space around them.
pub proof fn low_vram_is_selected_by_its_spellings(a: Seq<char>, core: Seq<char>, b: Seq<char>)
    requires
        text::all_white_space(a),
        text::all_white_space(b),
        core.len() > 0 ==> !text::is_white_space(core[0]) && !text::is_white_space(core.last()),
    ensures
        profile_of(a + core + b) == AccelerationProfile::LowVram <==> {
            let v = text::lowered(core);
            v == "low_vram"@ || v == "low-vram"@ || v == "lowvram"@ || v == "low"@
        },
        profile_of(a + core + b) != AccelerationProfile::LowVram ==> profile_of(a + core + b)
            == AccelerationProfile::Balanced,
{
    text::normal_form_is_the_core_in_lower_case(a, core, b);
}

/// Acceleration is switched off by exactly four words, whatever the case of
/// their letters and the white space around them.
pub proof fn acceleration_is_switched_off_by_its_words(a: Seq<char>, core: Seq<char>, b: Seq<char>)
    requires
        text::all_white_space(a),
        text::all_white_space(b),
        core.len() > 0 ==> !text::is_white_space(core[0]) && !text::is_white_space(core.last()),
    ensures
        acceleration_disabled_by(Some(a + core + b)) <==> {
            let v = text::lowered(core);
            v == "1"@ || v == "true"@ || v == "yes"@ || v == "on"@
        },
        !acceleration_disabled_by(None),
{
    text::normal_form_is_the_core_in_lower_case(a, core, b);
}

/// A setting that is there decides, as it stands; without one the default does.
/// Nothing is lost of a text on the way.
pub proof fn present_settings_decide(value: String)
    ensures
        text_of(Some(value)) == Some(value@),
        text_of(None) is None,
        data_local_path_of(Some(value@)) == value@,
        data_local_path_of(None) == "./.data"@,
        profile_from(Some(value@)) == profile_of(value@),
        profile_from(None) == AccelerationProfile::Balanced,
{
}

/// The view of the settings holds each value under its own name.
pub proof fn settings_view_is_faithful(env: EnvSettings)
    ensures
        env.data_local_path matches Some(v) ==> env@.data_local_path == Some(v@),
        env.data_local_path is None ==> env@.data_local_path is None,
        env.disable_accel matches Some(v) ==> env@.disable_accel == Some(v@),
        env.disable_accel is None ==> env@.disable_accel is None,
        env.accel_profile matches Some(v) ==> env@.accel_profile == Some(v@),
        env.accel_profile is None ==> env@.accel_profile is None,
{
}

} // verus!
