use crate::model::{decimal_text, placeholder, replace_all, CpuId};
use crate::sysfs::{EPP_GETSET, SCALING_GETSET};
use vstd::prelude::*;

verus! {

/// Why a setting was refused.
#[derive(Debug, Clone, Copy, PartialEq, Eq, Structural)]
pub enum ConfigError {
    /// The value is not among those the driver offers.
    Unsupported,
    /// The settings files cannot be written.
    PermissionDenied,
}

/// Whether `value` is one of `allowed`.
pub open spec fn allows(allowed: Seq<String>, value: Seq<char>) -> bool {
    exists|i: int| 0 <= i < allowed.len() && (#[trigger] allowed[i])@ == value
}

/// Whether `value` is one of the values in `allowed`.
pub fn is_allowed(value: &String, allowed: &Vec<String>) -> (r: bool)
    ensures
        r == allows(allowed@, value@),
{
    let mut i: usize = 0;
    while i < allowed.len()
        invariant
            i <= allowed@.len(),
            forall|k: int| 0 <= k < i ==> (#[trigger] allowed@[k])@ != value@,
        decreases allowed@.len() - i,
    {
        if allowed[i] == *value {
            return true;
        }
        i = i + 1;
    }
    false
}

/// Entries `2k` and `2k + 1` of `writes` set the governor and the preference of `cpu`.
pub open spec fn write_pair(
    governor: Seq<char>,
    epp: Seq<char>,
    cpu: CpuId,
    writes: Seq<(String, String)>,
    k: int,
) -> bool {
    &&& writes[2 * k].0@ == replace_all(SCALING_GETSET@, placeholder(), decimal_text(cpu.0 as nat))
    &&& writes[2 * k].1@ == governor
    &&& writes[2 * k + 1].0@ == replace_all(EPP_GETSET@, placeholder(), decimal_text(cpu.0 as nat))
    &&& writes[2 * k + 1].1@ == epp
}

/// The first `n` pairs of `writes` set the governor and the preference of the
/// first `n` cores, in order.
pub open spec fn writes_for(
    governor: Seq<char>,
    epp: Seq<char>,
    cpus: Seq<CpuId>,
    writes: Seq<(String, String)>,
    n: int,
) -> bool {
    forall|k: int| 0 <= k < n ==> #[trigger] write_pair(governor, epp, cpus[k], writes, k)
}

/// A CPU frequency scaling governor.
#[derive(Debug)]
pub struct ScalingGovernor(pub String);

/// An energy/performance preference of the CPU frequency driver.
#[derive(Debug)]
pub struct EnergyPerformancePreference(pub String);

impl ScalingGovernor {
    /// The governor named `value`, if it is one of the governors `allowed`.
    pub fn new(value: String, allowed: &Vec<String>) -> (r: Result<Self, ConfigError>)
        ensures
            allows(allowed@, value@) ==> (r matches Ok(g) && g.0@ == value@),
            !allows(allowed@, value@) ==> r == Err::<Self, ConfigError>(ConfigError::Unsupported),
    {
        if is_allowed(&value, allowed) {
            Ok(ScalingGovernor(value))
        } else {
            Err(ConfigError::Unsupported)
        }
    }
}

impl EnergyPerformancePreference {
    /// The preference named `value`, if it is one of the preferences `allowed`.
    pub fn new(value: String, allowed: &Vec<String>) -> (r: Result<Self, ConfigError>)
        ensures
            allows(allowed@, value@) ==> (r matches Ok(p) && p.0@ == value@),
            !allows(allowed@, value@) ==> r == Err::<Self, ConfigError>(ConfigError::Unsupported),
    {
        if is_allowed(&value, allowed) {
            Ok(EnergyPerformancePreference(value))
        } else {
            Err(ConfigError::Unsupported)
        }
    }
}

/// The driver settings applied to every core.
#[derive(Debug)]
pub struct Configuration {
    pub scaling_governor: ScalingGovernor,
    pub epp_preference: EnergyPerformancePreference,
}

impl Configuration {
    /// Whether `other` sets a different governor or a different preference.
    pub fn differs_from(&self, other: &Configuration) -> (r: bool)
        ensures
            r == (self.scaling_governor.0@ != other.scaling_governor.0@
                || self.epp_preference.0@ != other.epp_preference.0@),
    {
        !(self.scaling_governor.0 == other.scaling_governor.0)
            || !(self.epp_preference.0 == other.epp_preference.0)
    }
    /// The settings read from the governor and preference files, each of
    /// which must be among the values the driver offers.
    pub fn read(
        governor: String,
        allowed_governors: &Vec<String>,
        epp: String,
        allowed_epps: &Vec<String>,
    ) -> (r: Result<Self, ConfigError>)
        ensures
            r is Ok <==> allows(allowed_governors@, governor@) && allows(allowed_epps@, epp@),
            r is Err ==> r == Err::<Self, ConfigError>(ConfigError::Unsupported),
            r matches Ok(c) ==> c.scaling_governor.0@ == governor@ && c.epp_preference.0@ == epp@,
    {
        let governor = match ScalingGovernor::new(governor, allowed_governors) {
            Ok(g) => g,
            Err(e) => return Err(e),
        };
        let epp = match EnergyPerformancePreference::new(epp, allowed_epps) {
            Ok(p) => p,
            Err(e) => return Err(e),
        };
        Ok(Configuration { scaling_governor: governor, epp_preference: epp })
    }

    /// The writes that apply these settings to every core, in order: for each
    /// core its governor file, then its preference file, each with its value.
    /// Refused when the settings files are not writable.
    pub fn save(&self, writable: bool, cpus: &Vec<CpuId>) -> (r: Result<Vec<(String, String)>, ConfigError>)
        ensures
            !writable ==> r == Err::<Vec<(String, String)>, ConfigError>(ConfigError::PermissionDenied),
            writable ==> (r matches Ok(writes) && writes@.len() == 2 * cpus@.len() && writes_for(
                self.scaling_governor.0@,
                self.epp_preference.0@,
                cpus@,
                writes@,
                cpus@.len() as int,
            )),
    {
        if !writable {
            return Err(ConfigError::PermissionDenied);
        }
        let mut writes: Vec<(String, String)> = Vec::new();
        let mut i: usize = 0;
        while i < cpus.len()
            invariant
                i <= cpus@.len(),
                writes@.len() == 2 * i,
                writes_for(self.scaling_governor.0@, self.epp_preference.0@, cpus@, writes@, i as int),
            decreases cpus@.len() - i,
        {
            let cpu = cpus[i];
            let ghost prev = writes@;
            writes.push((cpu.path_for(SCALING_GETSET), self.scaling_governor.0.clone()));
            writes.push((cpu.path_for(EPP_GETSET), self.epp_preference.0.clone()));
            i = i + 1;
            assert forall|k: int| 0 <= k < i implies #[trigger] write_pair(
                self.scaling_governor.0@,
                self.epp_preference.0@,
                cpus@[k],
                writes@,
                k,
            ) by {
                if k < i - 1 {
                    assert(write_pair(self.scaling_governor.0@, self.epp_preference.0@, cpus@[k], prev, k));
                    assert(writes@[2 * k] == prev[2 * k]);
                    assert(writes@[2 * k + 1] == prev[2 * k + 1]);
                }
            }
        }
        Ok(writes)
    }
}

} // verus!
