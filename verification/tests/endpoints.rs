use lucky_wol_agent::endpoint::{
    choose_transport, normalize_controller_base, normalize_redirect_target, normalize_ws_url,
    resolve_websocket_endpoint, ProbeOutcome, Transport,
};

fn http(code: u16, status: &str, location: Option<Result<&str, &str>>) -> ProbeOutcome {
    ProbeOutcome::Http {
        code,
        status: status.to_string(),
        location: location.map(|header| match header {
            Ok(text) => Ok(text.to_string()),
            Err(error) => Err(error.to_string()),
        }),
    }
}

#[test]
fn blank_address_has_no_endpoint() {
    assert_eq!(normalize_controller_base(""), "");
    assert_eq!(normalize_ws_url(""), "");
    assert_eq!(normalize_ws_url("  "), "");
    assert_eq!(normalize_ws_url("\u{3000}\t\n"), "");
}

#[test]
fn every_address_form_names_the_service() {
    assert_eq!(normalize_ws_url("ws://lucky.lan:16601"), "ws://lucky.lan:16601/api/wol/service");
    assert_eq!(normalize_ws_url("wss://lucky.lan"), "wss://lucky.lan/api/wol/service");
    assert_eq!(normalize_ws_url("http://lucky.lan:16601/"), "ws://lucky.lan:16601/api/wol/service");
    assert_eq!(normalize_ws_url("https://lucky.lan/a/b"), "wss://lucky.lan/api/wol/service");
    assert_eq!(normalize_ws_url("  https://lucky.lan/a \n"), "wss://lucky.lan/api/wol/service");
}

#[test]
fn bare_hosts_use_plain_websocket() {
    assert_eq!(normalize_ws_url("192.168.1.10:16601"), "ws://192.168.1.10:16601/api/wol/service");
    assert_eq!(normalize_ws_url("lucky/admin"), "ws://lucky/api/wol/service");
    assert_eq!(normalize_controller_base("lucky/admin"), "ws://lucky");
}

#[test]
fn other_schemes_stand_for_themselves() {
    assert_eq!(normalize_controller_base("ftp://host/x"), "ftp://host");
    assert_eq!(normalize_controller_base("HTTP://host"), "HTTP://host");
    assert_eq!(normalize_controller_base("://host"), "://host");
    assert_eq!(normalize_controller_base("a://b://c"), "a://b:");
}

#[test]
fn an_address_without_a_host_loses_its_slashes() {
    assert_eq!(normalize_controller_base("http://"), "ws://");
    assert_eq!(normalize_ws_url("http://"), "ws:/api/wol/service");
    assert_eq!(normalize_ws_url("/"), "ws:/api/wol/service");
}

#[test]
fn normalizing_an_address_twice_is_normalizing_it_once() {
    for input in ["lucky:16601", "https://lucky/x", "ws://a", " wss://b/ ", "x://y"] {
        let once = normalize_ws_url(input);
        assert_eq!(normalize_ws_url(&once), once);
        assert_eq!(normalize_controller_base(&once), normalize_controller_base(input));
    }
}

#[test]
fn redirects_to_other_places() {
    let here = "ws://lucky:16601/api/wol/service";
    assert_eq!(normalize_redirect_target(here, "ws://other/x"), "ws://other/x");
    assert_eq!(normalize_redirect_target(here, " wss://other/x "), "wss://other/x");
    assert_eq!(normalize_redirect_target(here, "http://other/http://x"), "ws://other/http://x");
    assert_eq!(normalize_redirect_target(here, "https://other"), "wss://other");
}

#[test]
fn relative_redirects_stay_with_the_controller() {
    let here = "ws://lucky:16601/api/wol/service";
    assert_eq!(normalize_redirect_target(here, "/login"), "ws://lucky:16601/login");
    assert_eq!(normalize_redirect_target(here, "login?a=b"), "ws://lucky:16601/login?a=b");
    assert_eq!(normalize_redirect_target(here, ""), "ws://lucky:16601/");
    assert_eq!(normalize_redirect_target(here, "//other/x"), "ws://lucky:16601//other/x");
    for location in ["/login", "login", "", "//other"] {
        let target = normalize_redirect_target(here, location);
        assert_eq!(normalize_controller_base(&target), "ws://lucky:16601");
        let target = normalize_redirect_target("http://", location);
        assert_eq!(normalize_controller_base(&target), "ws://");
    }
}

#[test]
fn a_probe_that_connects_keeps_the_endpoint() {
    let target = resolve_websocket_endpoint("ws://lucky/api/wol/service", ProbeOutcome::Connected);
    assert_eq!(target, Ok("ws://lucky/api/wol/service".to_string()));
}

#[test]
fn a_probe_follows_the_four_redirects() {
    for code in [301u16, 302, 307, 308] {
        let outcome = http(code, "whatever", Some(Ok("https://lucky/x")));
        assert_eq!(
            resolve_websocket_endpoint("ws://lucky/api/wol/service", outcome),
            Ok("wss://lucky/x".to_string())
        );
    }
}

#[test]
fn a_probe_refuses_any_other_status() {
    for code in [200u16, 300, 303, 304, 305, 306, 309, 404, 500] {
        let outcome = http(code, "404 Not Found", Some(Ok("https://lucky/x")));
        assert_eq!(
            resolve_websocket_endpoint("ws://lucky", outcome),
            Err("HTTP error: 404 Not Found".to_string())
        );
    }
}

#[test]
fn a_redirect_needs_a_location() {
    assert_eq!(
        resolve_websocket_endpoint("ws://lucky", http(302, "302 Found", None)),
        Err("HTTP error: 302 Found，但响应里没有 Location".to_string())
    );
    assert_eq!(
        resolve_websocket_endpoint("ws://lucky", http(302, "302 Found", Some(Err("no text")))),
        Err("跳转地址解析失败: no text".to_string())
    );
}

#[test]
fn a_failed_probe_keeps_its_words() {
    assert_eq!(
        resolve_websocket_endpoint("ws://lucky", ProbeOutcome::Failed("refused".to_string())),
        Err("refused".to_string())
    );
}

#[test]
fn only_secure_endpoints_use_tls() {
    assert_eq!(choose_transport("ws://lucky", true), Transport::Plain);
    assert_eq!(choose_transport("WSS://lucky", true), Transport::Plain);
    assert_eq!(
        choose_transport("wss://lucky", false),
        Transport::Tls { accept_invalid_certs: false, accept_invalid_hostnames: false }
    );
    assert_eq!(
        choose_transport("wss://lucky", true),
        Transport::Tls { accept_invalid_certs: true, accept_invalid_hostnames: true }
    );
}
