use nexosign::allowed_origins::AllowedOrigins;
use nexosign::http_gate::{
    client_origin_from_headers, gate_batch_origin, host_is_loopback_local_api, missing_origin_hint,
    origin_is_own_listener, referer_is_loopback_local_api, uri_authority_is_loopback_local_api, OriginGate,
    RequestOriginHeaders,
};
use nexosign::local_api_listen::merge_custom_port_origins;
use nexosign::origin_policy::{
    is_origin_allowed, is_well_formed_origin, normalize_origin, origin_from_header,
    origin_from_referer,
};

#[test]
fn development_defaults_contains_localhost_1420() {
    let a = AllowedOrigins::development_defaults();
    assert!(a.is_allowed_origin("http://localhost:1420"));
    assert!(a.is_allowed_origin("http://127.0.0.1:1420"));
}

#[test]
fn replace_all_updates_policy() {
    let mut a = AllowedOrigins::development_defaults();
    a.replace_all(vec!["https://solo.estos".to_string()]);
    assert!(a.is_allowed_origin("https://solo.estos"));
    assert!(!a.is_allowed_origin("http://localhost:1420"));
}

#[test]
fn normalize_trims_and_strips_trailing_slash() {
    assert_eq!(normalize_origin("  http://localhost:1420/  "), "http://localhost:1420");
}

#[test]
fn matches_ignore_trailing_slash_mismatch() {
    let list = vec!["http://localhost:1420".to_string()];
    assert!(is_origin_allowed("http://localhost:1420/", &list));
}

#[test]
fn rejects_unknown_origin() {
    let list = vec!["http://localhost:1420".to_string()];
    assert!(!is_origin_allowed("https://evil.test", &list));
}

#[test]
fn origin_from_header_accepts_any_scheme() {
    let list = vec!["https://portal.ejemplo".to_string()];
    let o = origin_from_header(Some("https://portal.ejemplo/"));
    assert_eq!(o.as_deref(), Some("https://portal.ejemplo"));
    assert!(is_origin_allowed(o.as_deref().unwrap(), &list));

    assert!(is_well_formed_origin("https://app.example"));
    assert!(is_well_formed_origin("custom+app://host"));
    assert!(!is_well_formed_origin("not-an-origin"));
    assert!(origin_from_header(None).is_none());
}

#[test]
fn normalize_fixes_extra_dot_before_port() {
    assert_eq!(normalize_origin("http://127.0.0.1.:14500"), "http://127.0.0.1:14500");
    let list = vec![normalize_origin("http://127.0.0.1.:14500")];
    assert!(is_origin_allowed("http://127.0.0.1:14500", &list));
}

#[test]
fn origin_from_referer_strips_path() {
    let list = vec!["https://portal.ejemplo".to_string()];
    let o = origin_from_referer("https://portal.ejemplo/informes/listado").unwrap();
    assert_eq!(o, "https://portal.ejemplo");
    assert!(is_origin_allowed(&o, &list));
}

#[test]
fn null_and_blank_origins_are_not_origins() {
    assert!(!is_well_formed_origin("null"));
    assert!(!is_well_formed_origin("NULL"));
    assert!(!is_well_formed_origin("   "));
    assert!(!is_well_formed_origin("://host"));
    assert!(!is_well_formed_origin("http://"));
    assert!(origin_from_header(Some("   ")).is_none());
    assert!(origin_from_referer("").is_none());
    assert!(origin_from_referer("https:///path").is_none());
}

#[test]
fn referer_keeps_port_and_drops_query() {
    assert_eq!(
        origin_from_referer("http://localhost:1420?x=1").as_deref(),
        Some("http://localhost:1420")
    );
}

#[test]
fn add_then_allowed_and_remove_then_refused() {
    let mut a = AllowedOrigins::development_defaults();
    assert!(!a.is_allowed_origin("https://nuevo.portal"));
    a.add_if_absent("  https://nuevo.portal/ ");
    assert!(a.is_allowed_origin("https://nuevo.portal"));
    let n = a.origins().len();
    a.add_if_absent("https://nuevo.portal");
    assert_eq!(a.origins().len(), n);
    a.remove_matching("https://nuevo.portal/");
    assert!(!a.is_allowed_origin("https://nuevo.portal"));
}

#[test]
fn from_env_value_adds_extra_origins() {
    let a = AllowedOrigins::from_env_value(Some("https://a.example, https://b.example/"));
    assert!(a.is_allowed_origin("https://a.example"));
    assert!(a.is_allowed_origin("https://b.example"));
    assert!(a.is_allowed_origin("http://localhost:1420"));
    let d = AllowedOrigins::from_env_value(None);
    assert_eq!(d.origins().len(), AllowedOrigins::development_defaults().origins().len());
}

fn headers(
    origin: Option<&str>,
    x_client: Option<&str>,
    host: Option<&str>,
    referer: Option<&str>,
) -> RequestOriginHeaders {
    RequestOriginHeaders {
        origin: origin.map(|s| s.to_string()),
        x_client_origin: x_client.map(|s| s.to_string()),
        host: host.map(|s| s.to_string()),
        referer: referer.map(|s| s.to_string()),
        authority_host: None,
        authority_port: None,
    }
}

#[test]
fn loopback_host_and_referer_checks() {
    assert!(host_is_loopback_local_api(" LOCALHOST:14500 ", 14500));
    assert!(host_is_loopback_local_api("127.0.0.1:15099", 15099));
    assert!(!host_is_loopback_local_api("127.0.0.1:14500", 15099));
    assert!(referer_is_loopback_local_api("http://127.0.0.1:14500/docs", 14500));
    assert!(!referer_is_loopback_local_api("http://127.0.0.1:14500", 14500));
    assert!(uri_authority_is_loopback_local_api(Some("LocalHost"), Some(14500), 14500));
    assert!(!uri_authority_is_loopback_local_api(Some("example.com"), Some(14500), 14500));
    assert!(!uri_authority_is_loopback_local_api(Some("127.0.0.1"), None, 14500));
}

#[test]
fn client_origin_precedence() {
    let h = headers(Some("https://a.test"), Some("https://b.test"), Some("127.0.0.1:14500"), None);
    assert_eq!(client_origin_from_headers(&h, 14500).as_deref(), Some("https://a.test"));
    let h = headers(None, Some("https://b.test"), Some("127.0.0.1:14500"), None);
    assert_eq!(client_origin_from_headers(&h, 14500).as_deref(), Some("https://b.test"));
    let h = headers(None, Some("https://b.test"), Some("example.com"), None);
    assert_eq!(client_origin_from_headers(&h, 14500), None);
    let h = headers(None, None, None, Some("https://portal.ejemplo/x/y"));
    assert_eq!(client_origin_from_headers(&h, 14500).as_deref(), Some("https://portal.ejemplo"));
    let h = headers(None, None, None, Some("http://127.0.0.1:14500/docs"));
    assert_eq!(client_origin_from_headers(&h, 14500), None);
}

#[test]
fn batch_origin_gate_decisions() {
    let origins = AllowedOrigins::development_defaults();
    let h = headers(Some("http://localhost:1420"), None, None, None);
    assert!(matches!(gate_batch_origin(&origins, &h, 14500), OriginGate::Allowed));
    let h = headers(Some("https://evil.test"), None, None, None);
    match gate_batch_origin(&origins, &h, 14500) {
        OriginGate::NotTrusted(o) => assert_eq!(o, "https://evil.test"),
        _ => panic!("expected a refusal"),
    }
    let h = headers(None, None, Some("127.0.0.1:15099"), None);
    assert!(matches!(gate_batch_origin(&origins, &h, 15099), OriginGate::Allowed));
    let h = headers(None, None, None, None);
    assert!(matches!(gate_batch_origin(&origins, &h, 14500), OriginGate::MissingOrigin));
    let mut h = headers(None, None, None, None);
    h.authority_host = Some("127.0.0.1".to_string());
    h.authority_port = Some(14500);
    assert!(matches!(gate_batch_origin(&origins, &h, 14500), OriginGate::Allowed));
}

#[test]
fn missing_origin_hint_names_the_port() {
    let h = missing_origin_hint(15099);
    assert!(h.contains("127.0.0.1:15099."));
    assert!(h.ends_with("-H \"Origin: http://127.0.0.1:15099\""));
}

#[test]
fn custom_port_adds_loopback_origins() {
    let mut a = AllowedOrigins::development_defaults();
    merge_custom_port_origins(&mut a, 15099);
    assert!(a.is_allowed_origin("http://127.0.0.1:15099"));
    assert!(a.is_allowed_origin("http://localhost:15099"));
    let mut b = AllowedOrigins::development_defaults();
    let n = b.origins().len();
    merge_custom_port_origins(&mut b, 14500);
    assert_eq!(b.origins().len(), n);
}

#[test]
fn batch_job_status_swagger_origin_allowed() {
    let origins = AllowedOrigins::development_defaults();
    let h = headers(Some("http://127.0.0.1:14500"), None, None, None);
    assert!(matches!(gate_batch_origin(&origins, &h, 14500), OriginGate::Allowed));
    let h = headers(Some("http://localhost:15099"), None, None, None);
    assert!(matches!(gate_batch_origin(&origins, &h, 15099), OriginGate::NotTrusted(_)));
    let h = headers(Some("http://127.0.0.1:14500"), None, None, None);
    match gate_batch_origin(&origins, &h, 15099) {
        OriginGate::NotTrusted(o) => assert_eq!(o, "http://127.0.0.1:14500"),
        _ => panic!("another port's origin is not this listener"),
    }
}

#[test]
fn own_listener_origin_is_exact() {
    assert!(origin_is_own_listener("http://127.0.0.1:14500", 14500));
    assert!(!origin_is_own_listener("http://localhost:14500", 14500));
    assert!(!origin_is_own_listener("http://127.0.0.1:14500/", 14500));
    assert!(!origin_is_own_listener("https://127.0.0.1:14500", 14500));
    assert!(!origin_is_own_listener("http://127.0.0.1:1450", 14500));
    assert!(!origin_is_own_listener("http://127.0.0.1:145000", 14500));
}

#[test]
fn batch_origin_not_trusted_returns_403_json() {
    let origins = AllowedOrigins::development_defaults();
    let h = headers(Some("https://untrusted.example"), None, None, None);
    assert!(matches!(gate_batch_origin(&origins, &h, 14500), OriginGate::NotTrusted(_)));
}

#[test]
fn batch_job_status_missing_origin_403() {
    let origins = AllowedOrigins::development_defaults();
    let h = headers(None, None, None, None);
    assert!(matches!(gate_batch_origin(&origins, &h, 14500), OriginGate::MissingOrigin));
}

#[test]
fn batch_job_status_loopback_host_without_origin_ok() {
    let origins = AllowedOrigins::development_defaults();
    let h = headers(None, None, Some("127.0.0.1:14500"), None);
    assert!(matches!(gate_batch_origin(&origins, &h, 14500), OriginGate::Allowed));
}

#[test]
fn batch_job_status_referer_docs_without_origin_ok() {
    let origins = AllowedOrigins::development_defaults();
    let h = headers(None, None, None, Some("http://127.0.0.1:14500/docs"));
    assert!(matches!(gate_batch_origin(&origins, &h, 14500), OriginGate::Allowed));
}

#[test]
fn batch_job_status_uri_authority_http2_style_without_origin_ok() {
    let origins = AllowedOrigins::development_defaults();
    let mut h = headers(None, None, None, None);
    h.authority_host = Some("127.0.0.1".to_string());
    h.authority_port = Some(14500);
    assert!(matches!(gate_batch_origin(&origins, &h, 14500), OriginGate::Allowed));
}

#[test]
fn batch_gate_accepts_host_on_custom_listen_port_without_origin() {
    let origins = AllowedOrigins::development_defaults();
    let h = headers(None, None, Some("127.0.0.1:15001"), None);
    assert!(!matches!(gate_batch_origin(&origins, &h, 15001), OriginGate::MissingOrigin));
    assert!(matches!(gate_batch_origin(&origins, &h, 15001), OriginGate::Allowed));
}

#[test]
fn referer_path_query_and_fragment_do_not_change_the_origin() {
    let base = origin_from_referer("https://portal.ejemplo");
    assert_eq!(base.as_deref(), Some("https://portal.ejemplo"));
    assert_eq!(origin_from_referer("https://portal.ejemplo/informes/listado"), base);
    assert_eq!(origin_from_referer("https://portal.ejemplo?x=1"), base);
    assert_eq!(origin_from_referer("https://portal.ejemplo#frag"), base);
    assert_eq!(origin_from_header(Some("https://portal.ejemplo")), base);
}

#[test]
fn normalizing_twice_changes_nothing() {
    for raw in ["  http://127.0.0.1.:14500/ ", "https://a.example//", "http://localhost:1420", "127.0.0.1.127.0.0.1.:"] {
        let n = normalize_origin(raw);
        assert_eq!(normalize_origin(&n), n);
    }
    assert_eq!(normalize_origin("http://x /"), "http://x ");
    assert_eq!(normalize_origin("http://x "), "http://x");
}

#[test]
fn removing_undoes_adding() {
    let mut a = AllowedOrigins::development_defaults();
    let before = a.origins().to_vec();
    assert!(!a.is_allowed_origin(" https://nuevo.example/ "));
    a.add_if_absent(" https://nuevo.example/ ");
    assert!(a.is_allowed_origin("https://nuevo.example"));
    a.remove_matching(" https://nuevo.example/ ");
    assert_eq!(a.origins().to_vec(), before);
}
