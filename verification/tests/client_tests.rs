use cnet::client::{get_info_request, login_request, offline_request, online_request};
use cnet::config::{Config, BASE_URL};
use cnet::crypto::encrypt_password;

#[test]
fn login_request_encrypts_the_password() {
    let req = login_request("20230101", "password");
    assert_eq!(req.do_what, "Login");
    assert_eq!(req.username, "20230101");
    assert_eq!(req.password, "63b8deb993955d7c818df5aef31c1ea7");
    assert_eq!(req.password, encrypt_password("20230101", "password"));
}

#[test]
fn operation_requests() {
    assert_eq!(get_info_request().do_what, "GetInfo");
    let online = online_request("校园网套餐");
    assert_eq!(online.do_what, "OpenNet");
    assert_eq!(online.package, "校园网套餐");
    let off = offline_request("10.1.2.3");
    assert_eq!(off.do_what, "CloseNet");
    assert_eq!(off.ip, "10.1.2.3");
}

#[test]
fn default_config_points_at_portal() {
    assert_eq!(Config::default().base_url, "http://2.2.2.2/Auth.ashx");
    assert_eq!(BASE_URL, "http://2.2.2.2/Auth.ashx");
}
