use voice_assistant::config::make_sn;
use voice_assistant::content_type::{content_type_for_extension, file_extension, get_content_type};
use voice_assistant::request::ConnectWifiReq;
use voice_assistant::response::{Res, SettingsRes, WifiListRes, ERROR_CODE, SUCCESS_CODE};
use voice_assistant::wifi::{
    auth_method_label, list_all_wifi, AccessPoint, AuthMethod, ConnectAction, ConnectPhase,
    WifiConnect,
};

#[test]
fn content_type_known_extensions() {
    assert_eq!(get_content_type("../../pages/index.html"), "text/html; charset=utf-8");
    assert_eq!(get_content_type("../../pages/styles/common.css"), "text/css; charset=utf-8");
    assert_eq!(get_content_type("../../pages/scripts/vue.min.js"), "application/javascript; charset=utf-8");
    assert_eq!(get_content_type("data.json"), "application/json; charset=utf-8");
    assert_eq!(get_content_type("a.png"), "image/png");
    assert_eq!(get_content_type("a.jpg"), "image/jpeg");
    assert_eq!(get_content_type("a.jpeg"), "image/jpeg");
    assert_eq!(get_content_type("a.gif"), "image/gif");
    assert_eq!(get_content_type("a.svg"), "image/svg+xml");
    assert_eq!(get_content_type("favicon.ico"), "image/x-icon");
}

#[test]
fn content_type_ignores_case_of_extension() {
    assert_eq!(get_content_type("INDEX.HTML"), "text/html; charset=utf-8");
    assert_eq!(get_content_type("photo.JpEg"), "image/jpeg");
}

#[test]
fn content_type_defaults_to_plain_text() {
    assert_eq!(get_content_type("README"), "text/plain; charset=utf-8");
    assert_eq!(get_content_type("archive.tar.gz"), "text/plain; charset=utf-8");
    assert_eq!(get_content_type("trailing."), "text/plain; charset=utf-8");
    assert_eq!(get_content_type(""), "text/plain; charset=utf-8");
}

#[test]
fn extension_is_text_after_last_dot() {
    assert_eq!(file_extension("a.b.c"), "c");
    assert_eq!(file_extension("noext"), "noext");
    assert_eq!(file_extension("dir.d/file"), "d/file");
    assert_eq!(file_extension("x."), "");
    assert_eq!(file_extension("图片.png"), "png");
    assert_eq!(content_type_for_extension("JS"), "text/plain; charset=utf-8");
    assert_eq!(content_type_for_extension("js"), "application/javascript; charset=utf-8");
}

#[test]
fn success_response_carries_data() {
    let r = Res::success(42u32);
    assert_eq!(r.code, SUCCESS_CODE);
    assert_eq!(r.code, 0);
    assert_eq!(r.msg, "");
    assert_eq!(r.data, Some(42));
    assert!(r.is_success());
}

#[test]
fn error_response_carries_message() {
    let r: Res<()> = Res::error("扫描失败");
    assert_eq!(r.code, ERROR_CODE);
    assert_eq!(r.code, 1);
    assert_eq!(r.msg, "扫描失败");
    assert!(r.data.is_none());
    assert!(!r.is_success());
}

#[test]
fn settings_response_holds_fields() {
    let s = SettingsRes { role_prompt: "p".to_string(), voice: "longanhuan".to_string(), speech_speed: 1, volume: 50 };
    let r = Res::success(s);
    assert!(r.is_success());
    assert_eq!(r.data.unwrap().volume, 50);
}

#[test]
fn auth_method_labels() {
    assert_eq!(auth_method_label(Some(AuthMethod::Open)), "Open");
    assert_eq!(auth_method_label(Some(AuthMethod::WEP)), "WEP");
    assert_eq!(auth_method_label(Some(AuthMethod::WPA)), "WPA");
    assert_eq!(auth_method_label(Some(AuthMethod::WPA2Personal)), "WPA2");
    assert_eq!(auth_method_label(Some(AuthMethod::WPAWPA2Personal)), "WPA/WPA2");
    assert_eq!(auth_method_label(Some(AuthMethod::WPA2Enterprise)), "WPA2-Enterprise");
    assert_eq!(auth_method_label(Some(AuthMethod::WPA3Personal)), "WPA3");
    assert_eq!(auth_method_label(Some(AuthMethod::WPA2WPA3Personal)), "WPA2/WPA3");
    assert_eq!(auth_method_label(Some(AuthMethod::WAPIPersonal)), "WAPI");
    assert_eq!(auth_method_label(None), "Unknown");
}

#[test]
fn wifi_list_keeps_scan_order() {
    let scanned = vec![
        AccessPoint { ssid: "home".to_string(), signal_strength: -40, auth_method: Some(AuthMethod::WPA2Personal) },
        AccessPoint { ssid: "cafe".to_string(), signal_strength: -80, auth_method: None },
    ];
    let list: Vec<WifiListRes> = list_all_wifi(scanned);
    assert_eq!(list.len(), 2);
    assert_eq!(list[0].ssid, "home");
    assert_eq!(list[0].signal_strength, -40);
    assert_eq!(list[0].auth_method, "WPA2");
    assert_eq!(list[1].ssid, "cafe");
    assert_eq!(list[1].signal_strength, -80);
    assert_eq!(list[1].auth_method, "Unknown");
    assert!(list_all_wifi(Vec::new()).is_empty());
}

fn attempt(ssid: &str) -> WifiConnect {
    WifiConnect::new(ConnectWifiReq { ssid: ssid.to_string(), password: "secret".to_string() })
}

#[test]
fn connect_waits_for_disconnect_then_configures() {
    let mut c = attempt("home");
    assert_eq!(c.phase, ConnectPhase::Disconnecting);
    assert_eq!(c.on_link_state(true), ConnectAction::WaitDisconnect);
    assert_eq!(c.on_link_state(true), ConnectAction::WaitDisconnect);
    assert_eq!(c.on_link_state(false), ConnectAction::Configure);
    assert_eq!(c.phase, ConnectPhase::Connecting { checks: 0 });
    assert_eq!(c.ssid, "home");
    assert_eq!(c.password, "secret");
}

#[test]
fn connect_persists_when_link_comes_up() {
    let mut c = attempt("home");
    c.on_link_state(false);
    for _ in 0..9 {
        assert_eq!(c.on_link_state(false), ConnectAction::WaitConnect);
        assert!(!c.is_failed());
    }
    assert_eq!(c.on_link_state(true), ConnectAction::Persist);
    assert_eq!(c.phase, ConnectPhase::Connected);
}

#[test]
fn connect_gives_up_after_ten_checks() {
    let mut c = attempt("home");
    c.on_link_state(false);
    for i in 0..10 {
        assert!(!c.is_failed(), "failed early at check {}", i);
        assert_eq!(c.on_link_state(false), ConnectAction::WaitConnect);
    }
    assert!(c.is_failed());
    assert_eq!(c.failure_message(), "无法连接到 home");
}

#[test]
fn serial_number_is_uppercase_hex_of_mac() {
    assert_eq!(make_sn(&[0x00, 0x1a, 0x2b, 0x3c, 0x4d, 0xff]), "001A2B3C4DFF");
    assert_eq!(make_sn(&[0xde, 0xad, 0xbe, 0xef, 0x01, 0x10]), "DEADBEEF0110");
    let mac = [0x24u8, 0x6f, 0x28, 0xa1, 0xb2, 0xc3];
    let expected = format!(
        "{:02x}{:02x}{:02x}{:02x}{:02x}{:02x}",
        mac[0], mac[1], mac[2], mac[3], mac[4], mac[5]
    )
    .to_uppercase();
    assert_eq!(make_sn(&mac), expected);
    assert_ne!(make_sn(&[0, 0, 0, 0, 0, 1]), make_sn(&[0, 0, 0, 0, 1, 0]));
}

#[test]
fn content_type_same_for_any_ascii_case() {
    for p in ["index.html", "Photo.JPeg", "x/y.SvG", "a.b.Js", "readme", "data.Json."] {
        let t = get_content_type(p);
        assert_eq!(get_content_type(&p.to_ascii_uppercase()), t);
        assert_eq!(get_content_type(&p.to_ascii_lowercase()), t);
        assert_eq!(get_content_type(&p.to_lowercase()), t);
    }
}
