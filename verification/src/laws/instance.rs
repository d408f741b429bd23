//! Instances.

use vstd::prelude::*;

use crate::convert::instance::yamcs_instance_to_fsw;
use crate::hermes::{Fsw, FswCapability};
use crate::yamcs::Instance;

verus! {

/// An instance goes by its name, as a connection and as a dictionary. It can be commanded, and
/// nothing else, and forwards nothing.
pub proof fn law_instance_goes_by_its_name(instance: &Instance, fsw: Fsw)
    requires
        call_ensures(yamcs_instance_to_fsw, (instance,), fsw),
    ensures
        fsw.id@ == instance.name@,
        fsw.dictionary@ == instance.name@,
        fsw.fsw_type@ == "yamcs"@,
        fsw.profile_id@ == "yamcs"@,
        fsw.capabilities@.len() == 1,
        fsw.capabilities@[0] == FswCapability::Command,
        fsw.forwards@.len() == 0,
{
}

} // verus!
