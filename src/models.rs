//! Records of the machine's hardware and of the technician's tools, as the
//! front end shows them.

use vstd::prelude::*;

verus! {

/// Memory and swap, in bytes.
#[derive(Clone, Debug)]
pub struct MemoryInfo {
    pub total: u64,
    pub available: u64,
    pub used: u64,
    pub free: u64,
    pub swap_total: u64,
    pub swap_used: u64,
}

/// One disk or volume.
#[derive(Clone, Debug)]
pub struct DiskInfo {
    pub name: String,
    pub file_system: String,
    pub mount_point: String,
    pub total_space: u64,
    pub available_space: u64,
    pub is_removable: bool,
    pub is_read_only: bool,
    pub kind: String,
    pub read_bytes: u64,
    pub written_bytes: u64,
}

/// One network interface and its traffic counters.
#[derive(Clone, Debug)]
pub struct NetworkInfo {
    pub interface: String,
    pub mac: Option<String>,
    pub mtu: u64,
    pub ips: Vec<String>,
    pub received: u64,
    pub transmitted: u64,
    pub total_received: u64,
    pub total_transmitted: u64,
    pub errors_rx: u64,
    pub errors_tx: u64,
}

/// One graphics adapter.
#[derive(Clone, Debug)]
pub struct GpuInfo {
    pub name: String,
    pub vendor: Option<u32>,
    pub device: Option<u32>,
    pub device_type: Option<String>,
    pub driver: Option<String>,
    pub driver_info: Option<String>,
    pub backend: Option<String>,
}

/// The motherboard's identification.
#[derive(Clone, Debug)]
pub struct MotherboardInfo {
    pub vendor: Option<String>,
    pub name: Option<String>,
    pub version: Option<String>,
    pub serial_number: Option<String>,
    pub asset_tag: Option<String>,
}

/// The product's identification.
#[derive(Clone, Debug)]
pub struct ProductInfo {
    pub vendor: Option<String>,
    pub name: Option<String>,
    pub family: Option<String>,
    pub version: Option<String>,
    pub serial_number: Option<String>,
    pub sku: Option<String>,
    pub uuid: Option<String>,
}

/// Whether a known tool is available, and where.
#[derive(Clone, Debug)]
pub struct ToolStatus {
    /// The key by which pages ask for the tool.
    pub key: String,
    /// Its display name.
    pub name: String,
    /// Whether its executable was found.
    pub exists: bool,
    /// The executable of the saved program that matched best.
    pub path: Option<String>,
    /// The executable's usual file name, as a hint for the operator.
    pub hint: Option<String>,
}

/// A named group of saved programs, installed together. Ids are the 128-bit
/// values of UUIDs.
#[derive(Clone, Debug)]
pub struct ProgramStack {
    pub id: u128,
    pub name: String,
    pub description: String,
    /// The saved programs of the group, in order.
    pub program_ids: Vec<u128>,
    /// When the group was made, as the front end wrote it.
    pub created_at: Option<String>,
}

/// A program group as stored on disk.
#[derive(Clone, Debug)]
pub struct ProgramStackDiskEntry {
    pub id: u128,
    pub name: String,
    pub description: String,
    pub program_ids: Vec<u128>,
    pub created_at: Option<String>,
}

} // verus!
