use std::collections::HashMap;

use monitor::api::{status_code, ApiError};
use monitor::app_url::{format_app_url, get_app_url, strip_matches};
use monitor::config::{default_config, get_config, MiruConfig, MiruConfigEmail, MiruConfigIncident,
    MiruConfigIncidentAuto, MiruConfigStorage, MiruConfigUsers, MiruConfigWorkspace};
use monitor::health::{FailureAction, SuccessAction};
use monitor::ident::{generate_id, id_from_picks};
use monitor::notifs::{
    chat_message, failure_reconciles, incident_title, incident_url, monitor_line,
    monitoring_message, opening_message, regression_message, reports_after_failure,
    reports_after_success, resolved_message, success_reconciles, ReportStatus, TemplateOptions,
};
use monitor::probe::{
    clamp_latency, engine_call, http_failure, http_ping_record, http_response, http_success,
    tcp_ping_record, tcp_response, EngineCall, HttpPingErrorResponse, HttpPingResponse,
    ProbeProtocol, TcpPingErrorResponse, TcpPingResponse,
};

const CHARSET: &str = "ABCDEFGHIJKLMNOPQRSTUVWXYZabcdefghijklmnopqrstuvwxyz0123456789";

#[test]
fn generated_ids_have_sixteen_charset_characters() {
    for _ in 0..50 {
        let id = generate_id();
        assert_eq!(id.chars().count(), 16);
        assert!(id.chars().all(|c| CHARSET.contains(c)));
    }
}

#[test]
fn generated_ids_differ() {
    let a = generate_id();
    let b = generate_id();
    let c = generate_id();
    assert!(a != b || b != c);
}

#[test]
fn ids_are_spelled_from_picks() {
    assert_eq!(id_from_picks(&vec![0, 25, 26, 51, 52, 61]), "AZaz09");
    assert_eq!(id_from_picks(&vec![]), "");
    assert_eq!(id_from_picks(&vec![7, 7]), "HH");
}

#[test]
fn app_url_defaults_to_plain_localhost() {
    assert_eq!(get_app_url(None, None), Some("http://localhost:3000".to_string()));
    assert_eq!(
        get_app_url(None, Some("production".to_string())),
        Some("http://localhost:3000".to_string())
    );
}

#[test]
fn app_url_uses_the_configured_domain_and_environment() {
    assert_eq!(
        get_app_url(Some("status.example.com".to_string()), Some("development".to_string())),
        Some("https://status.example.com".to_string())
    );
    assert_eq!(
        get_app_url(Some("status.example.com".to_string()), Some("staging".to_string())),
        Some("http://status.example.com".to_string())
    );
    assert_eq!(format_app_url("a.b", true), "https://a.b");
    assert_eq!(format_app_url("a.b", false), "http://a.b");
    assert_eq!(format_app_url("", false), "http://");
}

#[test]
fn default_config_values() {
    let c = default_config();
    assert!(c.email.enabled);
    assert!(c.email.verification);
    assert!(c.incidents.auto.enabled);
    assert_eq!(c.incidents.auto.pings_threshold, 3);
    assert_eq!(c.storage.max_size, 12582912);
    assert!(c.users.delete_on_empty);
    assert!(c.workspace.creation);
}

#[test]
fn get_config_falls_back_to_defaults() {
    let fallback = get_config(None);
    assert!(fallback.incidents.auto.enabled);
    assert_eq!(fallback.incidents.auto.pings_threshold, 3);
    assert_eq!(fallback.storage.max_size, 12582912);
    let custom = MiruConfig {
        email: MiruConfigEmail { enabled: false, verification: true },
        incidents: MiruConfigIncident {
            auto: MiruConfigIncidentAuto { enabled: false, pings_threshold: 7 },
        },
        storage: MiruConfigStorage { max_size: 1 },
        users: MiruConfigUsers { delete_on_empty: false },
        workspace: MiruConfigWorkspace { creation: false },
    };
    let got = get_config(Some(custom));
    assert!(!got.email.enabled);
    assert!(got.email.verification);
    assert!(!got.incidents.auto.enabled);
    assert_eq!(got.incidents.auto.pings_threshold, 7);
    assert_eq!(got.storage.max_size, 1);
    assert!(!got.users.delete_on_empty);
    assert!(!got.workspace.creation);
}

#[test]
fn latency_is_clamped_to_the_sentinel() {
    assert_eq!(clamp_latency(0), 0);
    assert_eq!(clamp_latency(1234), 1234);
    assert_eq!(clamp_latency(i32::MAX as i64), i32::MAX);
    assert_eq!(clamp_latency(i32::MAX as i64 + 1), i32::MAX);
    assert_eq!(clamp_latency(i64::MAX), i32::MAX);
    assert_eq!(clamp_latency(-5), -5);
    assert_eq!(clamp_latency(i32::MIN as i64 - 1), i32::MAX);
}

#[test]
fn protocols_are_read_from_their_tags() {
    assert_eq!(ProbeProtocol::parse(&"http".to_string()), Some(ProbeProtocol::Http));
    assert_eq!(ProbeProtocol::parse(&"tcp".to_string()), Some(ProbeProtocol::Tcp));
    assert_eq!(ProbeProtocol::parse(&"icmp".to_string()), None);
    assert_eq!(ProbeProtocol::parse(&"HTTP".to_string()), None);
    assert_eq!(ProbeProtocol::Http.tag(), "http");
    assert_eq!(ProbeProtocol::Tcp.tag(), "tcp");
}

#[test]
fn http_responses_and_their_pings() {
    assert!(http_success(200));
    assert!(!http_success(204));
    let mut headers = HashMap::new();
    headers.insert("server".to_string(), "nginx".to_string());
    let ok = http_response(200, 42, Some("hi".to_string()), headers);
    assert!(ok.success);
    assert_eq!(ok.status, 200);
    assert_eq!(ok.latency, 42);
    assert_eq!(ok.body, Some("hi".to_string()));
    assert_eq!(ok.headers.get("server"), Some(&"nginx".to_string()));
    let ping = http_ping_record("m1".to_string(), &Ok(ok));
    assert!(ping.success);
    assert_eq!(ping.status, Some(200));
    assert_eq!(ping.latency, 42);
    assert_eq!(ping.monitor_id, "m1");
    assert_eq!(ping.protocol, ProbeProtocol::Http);

    let down = http_response(500, 9_000_000_000, None, HashMap::new());
    assert!(!down.success);
    assert_eq!(down.latency, i32::MAX);
    let ping = http_ping_record("m1".to_string(), &Ok(down));
    assert!(!ping.success);
    assert_eq!(ping.status, Some(500));

    let failed = http_failure(None, 30_000, "timed out".to_string(), HashMap::new());
    assert_eq!(failed.response.status, 503);
    assert!(!failed.response.success);
    assert_eq!(failed.response.latency, 30_000);
    assert_eq!(failed.error, "timed out");
    assert!(failed.response.body.is_none());
    let failed = http_failure(Some(502), 10, "bad gateway".to_string(), HashMap::new());
    assert_eq!(failed.response.status, 502);
    let ping = http_ping_record("m2".to_string(), &Err(failed));
    assert!(!ping.success);
    assert_eq!(ping.status, Some(502));
    assert_eq!(ping.latency, 10);
}

#[test]
fn failed_probe_with_success_flag_is_still_a_failed_ping() {
    let odd = HttpPingErrorResponse {
        response: HttpPingResponse {
            success: true,
            status: 200,
            body: None,
            latency: 3,
            headers: HashMap::new(),
        },
        error: "odd".to_string(),
    };
    let ping = http_ping_record("m1".to_string(), &Err(odd));
    assert!(!ping.success);
}

#[test]
fn tcp_responses_and_their_pings() {
    let up = tcp_response(true, 12);
    assert!(up.success);
    assert_eq!(up.latency, 12);
    let ping = tcp_ping_record("m1".to_string(), &Ok(up));
    assert!(ping.success);
    assert_eq!(ping.status, None);
    assert_eq!(ping.latency, 12);
    assert_eq!(ping.protocol, ProbeProtocol::Tcp);
    let err = TcpPingErrorResponse {
        error: "TCP Error: refused".to_string(),
        response: TcpPingResponse { success: false, latency: 7 },
    };
    let ping = tcp_ping_record("m1".to_string(), &Err(err));
    assert!(!ping.success);
    assert_eq!(ping.latency, 7);
}

#[test]
fn dispatcher_feeds_the_engine_only_when_enabled() {
    assert_eq!(engine_call(true, true), EngineCall::OnSuccess);
    assert_eq!(engine_call(false, true), EngineCall::OnFailure);
    assert_eq!(engine_call(true, false), EngineCall::Skip);
    assert_eq!(engine_call(false, false), EngineCall::Skip);
}

#[test]
fn incident_texts() {
    assert_eq!(incident_title("API"), "API is down");
    assert_eq!(
        opening_message("https://api.example.com"),
        "It appears that https://api.example.com is down. We are currently investigating this incident."
    );
    assert_eq!(
        regression_message("API"),
        "API is failing to ping again. We're looking into this now."
    );
    assert_eq!(monitoring_message("API"), "API is back online. Monitoring for stability.");
    assert_eq!(resolved_message("API"), "The incident has been resolved. API is back online.");
    assert_eq!(
        incident_url("http://localhost:3000", "acme", "i1"),
        "http://localhost:3000/admin/acme/incidents/i1"
    );
    assert_eq!(monitor_line("API", "api.example.com"), "- API (api.example.com)\n");
    assert_eq!(
        chat_message(TemplateOptions::AutoIncidentCreate, "- API (a.b)\n", "2024-01-01 00:00:00", "http://x/admin/acme/incidents/i1"),
        "## Some monitors are down! \n\nAffected monitors: \n- API (a.b)\n\n\nStarted: <t:2024-01-01 00:00:00:R>\nCurrently: Investigating\n\n[[View Incident](http://x/admin/acme/incidents/i1)]"
    );
    assert_eq!(TemplateOptions::AutoIncidentCreate.template_name(), "auto-incid-create");
    assert_eq!(TemplateOptions::AutoIncidentCreate.subject(), "Some monitors are down!");
    assert_eq!(ReportStatus::Investigating.tag(), "investigating");
    assert_eq!(ReportStatus::Monitoring.tag(), "monitoring");
    assert_eq!(ReportStatus::Resolved.tag(), "resolved");
}

#[test]
fn actions_name_their_reports() {
    let id = "i1".to_string();
    assert_eq!(reports_after_failure(&FailureAction::Nothing), vec![]);
    assert_eq!(reports_after_failure(&FailureAction::OpenIncident), vec![ReportStatus::Investigating]);
    assert_eq!(
        reports_after_failure(&FailureAction::ReportRegression { incident_id: id.clone() }),
        vec![ReportStatus::Investigating]
    );
    assert_eq!(reports_after_failure(&FailureAction::DropStale { incident_id: id.clone() }), vec![]);
    assert_eq!(reports_after_success(&SuccessAction::Nothing), vec![]);
    assert_eq!(reports_after_success(&SuccessAction::DropStale { incident_id: id.clone() }), vec![]);
    assert_eq!(
        reports_after_success(&SuccessAction::Counted { incident_id: id.clone(), monitoring_report: true }),
        vec![ReportStatus::Monitoring]
    );
    assert_eq!(
        reports_after_success(&SuccessAction::Counted { incident_id: id.clone(), monitoring_report: false }),
        vec![]
    );
    assert_eq!(
        reports_after_success(&SuccessAction::Resolved { incident_id: id.clone(), monitoring_report: true }),
        vec![ReportStatus::Monitoring, ReportStatus::Resolved]
    );
    assert_eq!(
        reports_after_success(&SuccessAction::Resolved { incident_id: id.clone(), monitoring_report: false }),
        vec![ReportStatus::Resolved]
    );
    assert!(!failure_reconciles(&FailureAction::Nothing));
    assert!(failure_reconciles(&FailureAction::OpenIncident));
    assert!(failure_reconciles(&FailureAction::DropStale { incident_id: id.clone() }));
    assert!(!success_reconciles(&SuccessAction::Nothing));
    assert!(success_reconciles(&SuccessAction::Counted { incident_id: id, monitoring_report: false }));
}

#[test]
fn errors_map_to_status_codes() {
    assert_eq!(status_code(ApiError::UnknownMonitor), 404);
    assert_eq!(status_code(ApiError::UnknownEvent), 404);
    assert_eq!(status_code(ApiError::JobNotFound), 404);
    assert_eq!(status_code(ApiError::Scheduler), 500);
    assert_eq!(status_code(ApiError::OldJobMissing), 500);
    assert_eq!(status_code(ApiError::EventPastDue), 500);
    assert_eq!(status_code(ApiError::Uninitialized), 500);
}

#[test]
fn email_settings_and_texts() {
    assert!(monitor::notifs::smtp_implicit_tls(&"true".to_string()));
    assert!(monitor::notifs::smtp_implicit_tls(&"1".to_string()));
    assert!(!monitor::notifs::smtp_implicit_tls(&"false".to_string()));
    assert!(!monitor::notifs::smtp_implicit_tls(&"0".to_string()));
    assert!(!monitor::notifs::smtp_implicit_tls(&"TRUE".to_string()));
    assert_eq!(monitor::notifs::sender("noreply@example.com"), "Miru <noreply@example.com>");
    assert_eq!(
        monitor::notifs::email_disabled_message(TemplateOptions::AutoIncidentCreate),
        "Failed to send auto-incid-create email. Emails are not enabled in this instance."
    );
}

#[test]
fn app_url_keeps_a_scheme_that_the_domain_carries() {
    assert_eq!(
        get_app_url(Some("https://www.example.com".to_string()), None),
        Some("http://https://www.example.com".to_string())
    );
}

#[test]
fn text_replace_agrees_with_the_standard_library() {
    let cases = [
        ("https://a.com/?next=https://b", "https://", "http://"),
        ("aaaa", "aa", "b"),
        ("aaa", "aa", "b"),
        ("abc", "", "-"),
        ("", "", "-"),
        ("", "x", "y"),
        ("abc", "abcd", "x"),
        ("héllo wörld", "ö", "oe"),
        ("{{name}} is {{name}}", "{{name}}", "API"),
        ("abab", "ab", ""),
    ];
    for (s, from, to) in cases {
        assert_eq!(monitor::text::replace(s, from, to), s.replace(from, to));
    }
    assert_eq!(monitor::text::replace("aaa", "aa", "b"), "ba");
    assert_eq!(monitor::text::replace("abc", "", "-"), "-a-b-c-");
}

#[test]
fn text_trim_and_contains_agree_with_the_standard_library() {
    let cases = [
        ("http://http://x", "http://"),
        ("https://x", "http://"),
        ("x", "http://"),
        ("", "a"),
        ("aaa", "a"),
        ("aab", "a"),
        ("abc", ""),
        ("ééa", "é"),
    ];
    for (s, p) in cases {
        assert_eq!(monitor::text::trim_start_matches(s, p), s.trim_start_matches(p));
    }
    assert_eq!(monitor::text::trim_start_matches("http://http://x", "http://"), "x");
    let pairs = [("auto-incid-create.html", "auto-incid-create"), ("abc", "bd"), ("abc", ""), ("", ""), ("", "a"), ("abc", "c"), ("abc", "abcd")];
    for (s, p) in pairs {
        assert_eq!(monitor::text::contains(s, p), s.contains(p));
    }
    assert!(monitor::text::contains("xx-auto-incid-create.html", "auto-incid-create"));
    assert_eq!(monitor::text::chars_of("aé"), vec!['a', 'é']);
    assert_eq!(monitor::text::string_of(&vec!['o', 'k']), "ok");
}

#[test]
fn probe_addresses_try_https_first() {
    let u = monitor::probe::probe_urls("example.com");
    assert_eq!(u.secure, "https://example.com");
    assert_eq!(u.plain, "http://example.com");
    let u = monitor::probe::probe_urls("http://example.com");
    assert_eq!(u.secure, "https://example.com");
    assert_eq!(u.plain, "http://example.com");
    let u = monitor::probe::probe_urls("https://example.com/health");
    assert_eq!(u.secure, "https://example.com/health");
    assert_eq!(u.plain, "http://example.com/health");
    let u = monitor::probe::probe_urls("http://https://a");
    assert_eq!(u.secure, "https://a");
    let u = monitor::probe::probe_urls("https://http://a");
    assert_eq!(u.secure, "https://http://a");
    assert_eq!(u.plain, "http://http://a");
    let u = monitor::probe::probe_urls("a.com/?next=https://b");
    assert_eq!(u.secure, "https://a.com/?next=https://b");
    assert_eq!(u.plain, "http://a.com/?next=http://b");
}

#[test]
fn templates_are_picked_and_filled() {
    let names = vec![
        "welcome.html".to_string(),
        "auto-incid-create.html".to_string(),
        "auto-incid-create.txt".to_string(),
    ];
    assert_eq!(monitor::notifs::pick_template(&names, "auto-incid-create"), Some(1));
    assert_eq!(monitor::notifs::pick_template(&names, "welcome"), Some(0));
    assert_eq!(monitor::notifs::pick_template(&names, "goodbye"), None);
    assert_eq!(monitor::notifs::pick_template(&Vec::new(), "welcome"), None);
    let values = vec![
        ("monitorNames".to_string(), "API".to_string()),
        ("url".to_string(), "http://x/i1".to_string()),
    ];
    assert_eq!(
        monitor::notifs::fill_template("<a href=\"url\">monitorNames</a> monitorNames", &values),
        "<a href=\"http://x/i1\">API</a> API"
    );
    assert_eq!(monitor::notifs::fill_template("plain", &Vec::new()), "plain");
    let chained = vec![("a".to_string(), "b".to_string()), ("b".to_string(), "c".to_string())];
    assert_eq!(monitor::notifs::fill_template("ab", &chained), "cc");
}

#[test]
fn chat_message_lists_the_last_linked_monitor() {
    let linked = vec![
        ("API".to_string(), "api.example.com".to_string()),
        ("Web".to_string(), "www.example.com".to_string()),
    ];
    assert_eq!(monitor::notifs::affected_monitors(&linked), "- Web (www.example.com)\n");
    assert_eq!(monitor::notifs::affected_monitors(&Vec::new()), "");
}

#[test]
fn matches_of_a_pattern_are_cut_out() {
    assert_eq!(
        strip_matches("^(?:https?://)?(?:www\\.)?", "https://www.example.com"),
        Some("example.com".to_string())
    );
    assert_eq!(strip_matches("[0-9]+", "a1b22c333"), Some("abc".to_string()));
    assert_eq!(strip_matches("x", "abc"), Some("abc".to_string()));
    assert_eq!(strip_matches("(", "abc"), None);
    assert_eq!(
        strip_matches(monitor::app_url::SCHEME_PATTERN, "https://www.example.com"),
        Some("https://www.example.com".to_string())
    );
}
