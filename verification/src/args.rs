//! Run configuration of the sandbox: where the provisioning script and the
//! target binary come from, where the staging directory lies, and the
//! wall-clock budget for each external operation. Parsed at the process
//! edge and read-only thereafter.

use vstd::prelude::*;

verus! {

/// The sandbox's command-line configuration.
#[derive(Debug)]
pub struct Arguments {
    pub setup_sh_path: String,
    pub target_elf_path: String,
    pub mount_dir_path: String,
    /// Seconds each external operation may take; the bounded executor
    /// kills and reaps the child when the budget elapses.
    pub timeout: u64,
}

} // verus!
