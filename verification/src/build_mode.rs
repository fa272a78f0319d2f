use vstd::prelude::*;
use crate::text::text_eq;

verus! {

/// SGX build mode.
#[derive(Debug, Copy, Clone, PartialEq, Eq, Structural)]
pub enum SgxMode {
    Hardware,
    Simulation,
}

impl SgxMode {
    /// The mode that a value of the `SGX_MODE` setting selects: `"HW"` selects
    /// hardware mode and every other value simulation.
    pub fn from_setting(value: &str) -> (m: SgxMode)
        ensures
            m == (if value@ == "HW"@ {
                SgxMode::Hardware
            } else {
                SgxMode::Simulation
            }),
    {
        if text_eq(value, "HW") {
            SgxMode::Hardware
        } else {
            SgxMode::Simulation
        }
    }

    /// Name of the untrusted runtime library to link for this mode.
    pub fn urts_library_name(&self) -> (name: &'static str)
        ensures
            name@ == (match *self {
                SgxMode::Hardware => "sgx_urts"@,
                SgxMode::Simulation => "sgx_urts_sim"@,
            }),
    {
        match self {
            SgxMode::Hardware => "sgx_urts",
            SgxMode::Simulation => "sgx_urts_sim",
        }
    }

    /// Whether the build must enable the simulation feature.
    pub fn is_simulation(&self) -> (r: bool)
        ensures
            r <==> *self == SgxMode::Simulation,
    {
        match self {
            SgxMode::Hardware => false,
            SgxMode::Simulation => true,
        }
    }
}

} // verus!
