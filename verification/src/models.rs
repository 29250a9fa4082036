//! Requests sent to the authentication portal and the replies it returns.
//! The JSON field names are given in each field's comment.

use vstd::prelude::*;

verus! {

/// Asks the portal to open the network with a package.
#[derive(Debug)]
pub struct OnlineRequest {
    /// `DoWhat`
    pub do_what: String,
    /// `Package`
    pub package: String,
}

/// The portal's answer to an [`OnlineRequest`].
#[derive(Debug)]
pub struct OnlineResponse {
    /// `DoWhat`
    pub operate: String,
    /// `Package`
    pub network_plan: String,
    /// `Result`
    pub status: bool,
    /// `Message`
    pub hint: String,
}

/// Asks the portal to close the session of an address.
#[derive(Debug)]
pub struct CloseNetRequest {
    /// `DoWhat`
    pub do_what: String,
    /// `IP`
    pub ip: String,
}

/// The portal's answer to a [`CloseNetRequest`].
#[derive(Debug)]
pub struct CloseNetResponse {
    /// `DoWhat`
    pub action: String,
    /// `IP`
    pub ip: String,
    /// `Result`
    pub status: bool,
    /// `Message`
    pub message: String,
}

/// Logs in with a user name and the encrypted password.
#[derive(Debug)]
pub struct LoginRequest {
    /// `DoWhat`
    pub do_what: String,
    /// `username`
    pub username: String,
    /// `password`
    pub password: String,
}

/// A request that carries nothing but the operation's name.
#[derive(Debug)]
pub struct OperationRequest {
    /// `DoWhat`
    pub do_what: String,
}

/// The portal's answer to a `GetInfo` request.
#[derive(Debug)]
pub struct GetInfoResponse {
    /// `DoWhat`
    pub action: String,
    /// `Data`
    pub data: UserData,
    /// `Message`
    pub message: String,
    /// `Result`
    pub success: bool,
}

/// What the portal knows of the logged-in user.
#[derive(Debug)]
pub struct UserData {
    /// `IP`
    pub ip: String,
    /// `MAC`
    pub mac: String,
    /// `XM`
    pub real_name: String,
    /// `DP`
    pub department: String,
    /// `MOC`
    pub online_count: i32,
    /// `KXTC`
    pub available_packages: Vec<PackageItem>,
    /// `UG`
    pub user_group: String,
    /// `OIA`
    pub online_sessions: Vec<SessionInfo>,
    /// `CYXX`
    pub trusted_devices: Vec<DeviceInfo>,
}

/// A network package.
#[derive(Debug)]
pub struct PackageItem {
    /// `套餐名称`
    pub name: String,
}

/// A session the user has open.
#[derive(Debug)]
pub struct SessionInfo {
    /// `IP`
    pub ip: String,
    /// `MAC`
    pub mac: String,
    /// `VLAN`
    pub vlan: u16,
    /// `Start`
    pub start_time: String,
    /// `Last`
    pub last_active: String,
    /// `Package`
    pub package: PackageItem,
    /// `Session`
    pub session_id: String,
}

/// A device the user has marked as trusted.
#[derive(Debug)]
pub struct DeviceInfo {
    /// `MAC`
    pub mac: String,
    /// `Desc`
    pub description: String,
}

} // verus!
