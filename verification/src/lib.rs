use vstd::prelude::*;

pub mod boot_manager;
pub mod defs;
pub mod device;
pub mod disk_info;
pub mod edit;
pub mod extract;
pub mod fs_writer;
pub mod ensured_cmds;
pub mod file_type;
pub mod linux_common;
pub mod lsblk_info;
pub mod migrate_info;
pub mod migrator;
pub mod num;
pub mod os_info;
pub mod path_info;
pub mod paths;
pub mod stage2;
pub mod text;
pub mod wifi_config;

verus! {

} // verus!
