//! Planning and validation of partition-layout changes for an installer.
//!
//! A [`Disk`] holds the partitions found on a device. A working copy of it is edited
//! through validated mutations, and [`Disk::diff`] compares the original with the edited
//! copy to produce the ordered [`DiskOps`] that an executor applies.
pub mod builder;
pub mod devices;
pub mod diff;
pub mod disk;
pub mod fs_types;
pub mod install;
pub mod operations;
pub mod partition;
pub mod search;
pub mod uuid;

pub use builder::PartitionBuilder;
pub use devices::{device_layout_hash, next_physical, resolve_slave, DeviceNode};
pub use disk::{Disk, DiskError, PartitionTable, PedDevice};
pub use fs_types::{get_preferred_options, FileSystemType, PartitionFlag, PartitionType};
pub use install::DISTINST_INSTALL_OPTION_VARIANT;
pub use operations::{DiskOps, PartitionChange, PartitionCreate};
pub use partition::{LvmEncryption, PartitionError, PartitionInfo, PedPartition};
pub use uuid::{from_uuid, get_uuid, UuidLink};
