//! Instances: from YAMCS to Hermes.

use vstd::prelude::*;

use crate::hermes::{Fsw, FswCapability};
use crate::yamcs::Instance;

verus! {

/// Convert YAMCS Instance to Hermes Fsw
pub fn yamcs_instance_to_fsw(instance: &Instance) -> (fsw: Fsw)
    ensures
        fsw.id@ == instance.name@,
        fsw.fsw_type@ == "yamcs"@,
        fsw.profile_id@ == "yamcs"@,
        fsw.forwards@.len() == 0,
        fsw.capabilities@ == seq![FswCapability::Command],
        fsw.dictionary@ == instance.name@,
{
    // YAMCS instances support commanding
    let mut capabilities: Vec<FswCapability> = Vec::new();
    capabilities.push(FswCapability::Command);
    assert(capabilities@ =~= seq![FswCapability::Command]);
    Fsw {
        id: instance.name.clone(),
        fsw_type: "yamcs".to_owned(),
        profile_id: "yamcs".to_owned(),
        forwards: Vec::new(),
        capabilities,
        dictionary: instance.name.clone(),
    }
}

} // verus!
