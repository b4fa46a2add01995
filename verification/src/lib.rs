//! Read-only FAT12 storage stack: sector access, 12-bit allocation-table
//! decoding, directory resolution, cluster-chain file reads, a single-slot
//! virtual-filesystem registry, and a line-command shell state machine.

pub mod fat12;
pub mod shell;
pub mod text;
pub mod vfs;
