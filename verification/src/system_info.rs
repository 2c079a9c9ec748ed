//! Host system identification for display purposes.
use vstd::prelude::*;

verus! {

/// Relies on sysinfo::System::long_os_version: reads the host's long
/// operating-system version text. The result depends on the machine the
/// call runs on, so nothing more is promised of it; a host without that
/// information reports none.
#[verifier::external_body]
pub fn system_info() -> Option<String> {
    sysinfo::System::long_os_version()
}

} // verus!
