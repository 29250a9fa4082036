//! The requests the client sends to the portal, built from plain values.

use crate::crypto::{encrypt_password, encrypted_password, key_tail_on_boundary};
use crate::models::{CloseNetRequest, LoginRequest, OnlineRequest, OperationRequest};
use vstd::prelude::*;
use vstd::string::*;

verus! {

/// The login request: the user name as given and the password encrypted
/// with a key derived from that user name.
pub fn login_request(username: &str, password: &str) -> (req: LoginRequest)
    requires
        key_tail_on_boundary(username.spec_bytes()),
    ensures
        req.do_what@ == "Login"@,
        req.username@ == username@,
        req.password@ == encrypted_password(username.spec_bytes(), password.spec_bytes()),
{
    let encrypted = encrypt_password(username, password);
    LoginRequest {
        do_what: String::from_str("Login"),
        username: String::from_str(username),
        password: encrypted,
    }
}

/// The request for the logged-in user's information.
pub fn get_info_request() -> (req: OperationRequest)
    ensures
        req.do_what@ == "GetInfo"@,
{
    OperationRequest { do_what: String::from_str("GetInfo") }
}

/// The request that opens the network with `package`.
pub fn online_request(package: &str) -> (req: OnlineRequest)
    ensures
        req.do_what@ == "OpenNet"@,
        req.package@ == package@,
{
    OnlineRequest { do_what: String::from_str("OpenNet"), package: String::from_str(package) }
}

/// The request that closes the session of address `ip`.
pub fn offline_request(ip: &str) -> (req: CloseNetRequest)
    ensures
        req.do_what@ == "CloseNet"@,
        req.ip@ == ip@,
{
    CloseNetRequest { do_what: String::from_str("CloseNet"), ip: String::from_str(ip) }
}

} // verus!
