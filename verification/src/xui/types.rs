//! What the API of the panel answers.

use vstd::prelude::*;

verus! {

/// An answer of the API.
#[derive(Debug, Default)]
pub struct ApiResponse<T> {
    pub success: bool,
    pub msg: String,
    pub obj: T,
}

#[derive(Clone, Copy, Debug, Default, PartialEq, Eq, Structural)]
pub struct Memory {
    pub current: u64,
    pub total: u64,
}

#[derive(Clone, Copy, Debug, Default, PartialEq, Eq, Structural)]
pub struct Disk {
    pub current: u64,
    pub total: u64,
}

#[derive(Debug, Default)]
pub struct XrayStatus {
    pub state: String,
    pub error_msg: String,
    pub version: String,
}

#[derive(Clone, Copy, Debug, Default, PartialEq, Eq, Structural)]
pub struct NetIO {
    pub up: u64,
    pub down: u64,
}

#[derive(Clone, Copy, Debug, Default, PartialEq, Eq, Structural)]
pub struct NetTraffic {
    pub sent: u64,
    pub recv: u64,
}

#[derive(Debug, Default)]
pub struct PublicIP {
    pub ipv4: String,
    pub ipv6: String,
}

#[derive(Clone, Copy, Debug, Default, PartialEq, Eq, Structural)]
pub struct AppStats {
    pub threads: u32,
    pub mem: u64,
    pub uptime: u64,
}

/// An inbound of the panel.
#[derive(Debug)]
pub struct XuiApiInbound {
    pub id: u32,
    pub up: u64,
    pub down: u64,
    pub total: u64,
    pub remark: String,
    pub sub_sort_index: u32,
    pub enable: bool,
    pub expiry_time: u64,
    pub traffic_reset: String,
    pub last_traffic_reset_time: u64,
    pub listen: String,
    pub port: u16,
    pub protocol: String,
    pub tag: String,
    pub share_addr_strategy: String,
    pub share_addr: String,
    pub client_stats: Vec<ClientStat>,
    pub settings: CSettings,
    pub sniffing: Sniffing,
}

/// What the panel knows of a client.
#[derive(Debug, Default)]
pub struct ClientStat {
    pub id: u32,
    pub inbound_id: u32,
    pub enable: bool,
    pub email: String,
    pub uuid: String,
    pub sub_id: String,
    pub up: u64,
    pub down: u64,
    pub expiry_time: i64,
    pub total: u64,
    pub reset: u64,
    pub last_online: u64,
}

#[derive(Debug, Default)]
pub struct CSettings {
    pub clients: Vec<ClientSetting>,
    pub decryption: String,
    pub encryption: String,
}

/// How a client is set up.
#[derive(Debug, Default)]
pub struct ClientSetting {
    pub comment: String,
    pub created_at: u64,
    pub updated_at: u64,
    pub id: String,
    pub limit_ip: i64,
    pub reset: i64,
    pub security: String,
    pub sub_id: String,
    pub tg_id: i64,
    pub total_gb: u64,
}

#[derive(Debug, Default)]
pub struct Sniffing {
    pub enabled: bool,
    pub dest_override: Vec<String>,
    pub metadata_only: bool,
    pub route_only: bool,
}

/// The short form of an inbound.
#[derive(Debug)]
pub struct LightXuiApiInbound {
    pub id: u32,
    pub remark: String,
    pub port: u16,
}

} // verus!
