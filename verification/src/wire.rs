//! The typed messages exchanged with the transport layer, as plain data.
//!
//! These mirror the service's wire schema: every entity crosses the
//! boundary as strings and structured light-configuration payloads, with
//! identifiers carried inside resource names or UUID strings.

use vstd::prelude::*;

verus! {

/// A time of day inside a light schedule.
#[derive(Debug, Clone, Copy, PartialEq, Eq, Structural)]
pub struct Time {
    pub hour: u32,
    pub minute: u32,
    pub second: u32,
}

/// One daily on/off window with a target intensity.
#[derive(Debug, Clone, Copy, PartialEq, Eq, Structural)]
pub struct DailySchedule {
    pub start: Time,
    pub stop: Time,
    pub intensity: u32,
}

/// One controlled luminaire inside a light configuration.
#[derive(Debug, PartialEq)]
pub struct Luminaire {
    pub port: u32,
    pub use_pwm: bool,
    pub photo_period: Vec<DailySchedule>,
}

/// The abstract value of a luminaire.
pub struct LuminaireV {
    pub port: u32,
    pub use_pwm: bool,
    pub photo_period: Seq<DailySchedule>,
}

impl View for Luminaire {
    type V = LuminaireV;

    open spec fn view(&self) -> LuminaireV {
        LuminaireV { port: self.port, use_pwm: self.use_pwm, photo_period: self.photo_period@ }
    }
}

/// The structured light configuration a Config stores.
#[derive(Debug, PartialEq)]
pub struct LightConfig {
    pub luminaires: Vec<Luminaire>,
}

impl View for LightConfig {
    type V = Seq<LuminaireV>;

    open spec fn view(&self) -> Seq<LuminaireV> {
        self.luminaires@.map_values(|l: Luminaire| l@)
    }
}

/// The light-profile payload a FeatureProfile carries.
#[derive(Debug, PartialEq)]
pub struct LightProfile {
    pub control_points: Vec<DailySchedule>,
}

impl View for LightProfile {
    type V = Seq<DailySchedule>;

    open spec fn view(&self) -> Seq<DailySchedule> {
        self.control_points@
    }
}

/// Copy a vector of plain values.
fn copy_vec<T: Copy>(v: &Vec<T>) -> (r: Vec<T>)
    ensures
        r@ == v@,
{
    let mut r: Vec<T> = Vec::new();
    let n = v.len();
    let mut i: usize = 0;
    while i < n
        invariant
            n == v@.len(),
            i <= n,
            r@ == v@.take(i as int),
        decreases n - i,
    {
        r.push(v[i]);
        proof {
            assert(v@.take(i as int).push(v@[i as int]) =~= v@.take(i as int + 1));
        }
        i = i + 1;
    }
    proof {
        assert(v@.take(n as int) =~= v@);
    }
    r
}

impl Clone for Luminaire {
    fn clone(&self) -> (res: Self)
        ensures
            res@ == self@,
    {
        Luminaire {
            port: self.port,
            use_pwm: self.use_pwm,
            photo_period: copy_vec(&self.photo_period),
        }
    }
}

impl Clone for LightConfig {
    fn clone(&self) -> (res: Self)
        ensures
            res@ == self@,
    {
        let mut ls: Vec<Luminaire> = Vec::new();
        let n = self.luminaires.len();
        let mut i: usize = 0;
        while i < n
            invariant
                n == self.luminaires@.len(),
                i <= n,
                ls@.len() == i,
                forall|j: int| 0 <= j < i ==> #[trigger] ls@[j]@ == self.luminaires@[j]@,
            decreases n - i,
        {
            ls.push(self.luminaires[i].clone());
            i = i + 1;
        }
        let r = LightConfig { luminaires: ls };
        proof {
            assert(r@ =~= self@);
        }
        r
    }
}

impl Clone for LightProfile {
    fn clone(&self) -> (res: Self)
        ensures
            res@ == self@,
    {
        LightProfile { control_points: copy_vec(&self.control_points) }
    }
}

/// A stored configuration as it crosses the wire: the identifier as a
/// plain UUID string, empty on create.
#[derive(Debug, Clone, PartialEq)]
pub struct Config {
    pub uid: String,
    pub display_name: String,
    pub light_config: Option<LightConfig>,
}

/// A device as it crosses the wire. `name` is a `devices/{}` resource name
/// (empty on create) and `config_name` a `config/{}` resource name for the
/// configuration the device references.
#[derive(Debug, Clone, PartialEq)]
pub struct Device {
    pub name: String,
    pub mac: String,
    pub display_name: String,
    pub description: String,
    pub timezone: String,
    pub config_name: String,
}

/// A feature as it crosses the wire; `feature_type` is a raw enum
/// discriminant, zero meaning unspecified.
#[derive(Debug, Clone, PartialEq)]
pub struct Feature {
    pub name: String,
    pub display_name: String,
    pub feature_type: i32,
}

/// The tagged configuration payload of a feature profile.
#[derive(Debug, PartialEq)]
pub enum FeatureProfileConfig {
    LightProfile(LightProfile),
}

/// The abstract value of a tagged configuration payload.
pub enum FeatureProfileConfigV {
    LightProfile(Seq<DailySchedule>),
}

impl View for FeatureProfileConfig {
    type V = FeatureProfileConfigV;

    open spec fn view(&self) -> FeatureProfileConfigV {
        match self {
            FeatureProfileConfig::LightProfile(p) => FeatureProfileConfigV::LightProfile(p@),
        }
    }
}

impl Clone for FeatureProfileConfig {
    fn clone(&self) -> (res: Self)
        ensures
            res@ == self@,
    {
        match self {
            FeatureProfileConfig::LightProfile(p) => FeatureProfileConfig::LightProfile(p.clone()),
        }
    }
}

/// A feature profile as it crosses the wire. `name` is a
/// `profiles/{}/features/{}` resource name and `feature_name` a
/// `features/{}` resource name.
#[derive(Debug, Clone, PartialEq)]
pub struct FeatureProfile {
    pub name: String,
    pub display_name: String,
    pub feature_name: String,
    pub config: Option<FeatureProfileConfig>,
}

/// A profile as it crosses the wire, carrying its feature profiles.
#[derive(Debug, Clone, PartialEq)]
pub struct Profile {
    pub name: String,
    pub display_name: String,
    pub feature_profiles: Vec<FeatureProfile>,
}


/// The abstract value of a wire configuration.
pub struct ConfigV {
    pub uid: Seq<char>,
    pub display_name: Seq<char>,
    pub light_config: Option<Seq<LuminaireV>>,
}

impl View for Config {
    type V = ConfigV;

    open spec fn view(&self) -> ConfigV {
        ConfigV {
            uid: self.uid@,
            display_name: self.display_name@,
            light_config: match &self.light_config {
                Some(lc) => Some(lc@),
                None => None,
            },
        }
    }
}

impl DeepView for Config {
    type V = ConfigV;

    open spec fn deep_view(&self) -> ConfigV {
        self@
    }
}

/// The abstract value of a wire device.
pub struct DeviceV {
    pub name: Seq<char>,
    pub mac: Seq<char>,
    pub display_name: Seq<char>,
    pub description: Seq<char>,
    pub timezone: Seq<char>,
    pub config_name: Seq<char>,
}

impl View for Device {
    type V = DeviceV;

    open spec fn view(&self) -> DeviceV {
        DeviceV {
            name: self.name@,
            mac: self.mac@,
            display_name: self.display_name@,
            description: self.description@,
            timezone: self.timezone@,
            config_name: self.config_name@,
        }
    }
}

impl DeepView for Device {
    type V = DeviceV;

    open spec fn deep_view(&self) -> DeviceV {
        self@
    }
}

/// The abstract value of a wire feature.
pub struct FeatureV {
    pub name: Seq<char>,
    pub display_name: Seq<char>,
    pub feature_type: i32,
}

impl View for Feature {
    type V = FeatureV;

    open spec fn view(&self) -> FeatureV {
        FeatureV {
            name: self.name@,
            display_name: self.display_name@,
            feature_type: self.feature_type,
        }
    }
}

impl DeepView for Feature {
    type V = FeatureV;

    open spec fn deep_view(&self) -> FeatureV {
        self@
    }
}

/// The abstract value of a wire feature profile.
pub struct FeatureProfileV {
    pub name: Seq<char>,
    pub display_name: Seq<char>,
    pub feature_name: Seq<char>,
    pub config: Option<FeatureProfileConfigV>,
}

impl View for FeatureProfile {
    type V = FeatureProfileV;

    open spec fn view(&self) -> FeatureProfileV {
        FeatureProfileV {
            name: self.name@,
            display_name: self.display_name@,
            feature_name: self.feature_name@,
            config: match &self.config {
                Some(c) => Some(c@),
                None => None,
            },
        }
    }
}

impl DeepView for FeatureProfile {
    type V = FeatureProfileV;

    open spec fn deep_view(&self) -> FeatureProfileV {
        self@
    }
}

/// The abstract value of a wire profile.
pub struct ProfileV {
    pub name: Seq<char>,
    pub display_name: Seq<char>,
    pub feature_profiles: Seq<FeatureProfileV>,
}

impl View for Profile {
    type V = ProfileV;

    open spec fn view(&self) -> ProfileV {
        ProfileV {
            name: self.name@,
            display_name: self.display_name@,
            feature_profiles: self.feature_profiles.deep_view(),
        }
    }
}

impl DeepView for Profile {
    type V = ProfileV;

    open spec fn deep_view(&self) -> ProfileV {
        self@
    }
}

} // verus!
