use webcodex::browser::{
    clip_bytes, clip_chars, AdmittedBrowserAction, BrowserError, BrowserKey,
    BrowserShutdownReport, ControlCapability, ExecutionState, SnapshotMode,
};
use webcodex::navigation::{admit_navigation_scheme, validate_navigation_url, NavigationUrl};

#[test]
fn navigation_policy_is_http_https_only() {
    for denied in [
        "file:///tmp/a",
        "javascript:alert(1)",
        "data:text/plain,x",
        "chrome://settings",
        "edge://settings",
        "devtools://devtools/bundled/inspector.html",
    ] {
        let error = validate_navigation_url(denied).unwrap_err();
        assert_eq!(error.execution_state, ExecutionState::NotStarted);
    }
    assert!(validate_navigation_url("https://example.test/a?q=1").is_ok());
    assert!(validate_navigation_url("http://127.0.0.1:8000/").is_ok());
}

#[test]
fn navigation_refusals_carry_their_kind() {
    let e = validate_navigation_url("relative/path").unwrap_err();
    assert_eq!(e.kind, "invalid_url");
    assert_eq!(e.message, "navigation requires an absolute http/https URL");
    let e = validate_navigation_url("file:///tmp/a").unwrap_err();
    assert_eq!(e.kind, "unsupported_url_scheme");
    assert_eq!(e.recovery_action, None);
    let long = format!("https://example.test/{}", "a".repeat(8192));
    let e = validate_navigation_url(&long).unwrap_err();
    assert_eq!(e.kind, "invalid_url");
    assert_eq!(e.message, "URL exceeds the Browser navigation bound");
    let ok = validate_navigation_url("HTTPS://Example.TEST/x").unwrap();
    assert_eq!(ok.scheme, "https");
    assert_eq!(ok.href, "https://example.test/x");
}

#[test]
fn scheme_admission_decides_on_the_scheme_alone() {
    let http = NavigationUrl {
        href: "http://a/".to_string(),
        scheme: "http".to_string(),
    };
    assert_eq!(admit_navigation_scheme(http.clone()).unwrap(), http);
    let ftp = NavigationUrl {
        href: "ftp://a/".to_string(),
        scheme: "ftp".to_string(),
    };
    let e = admit_navigation_scheme(ftp).unwrap_err();
    assert_eq!(e.kind, "unsupported_url_scheme");
    assert_eq!(e.message, "Browser navigation permits only http and https");
    assert_eq!(e.execution_state, ExecutionState::NotStarted);
}

#[test]
fn execution_states_and_modes_have_wire_names() {
    assert_eq!(ExecutionState::NotStarted.as_str(), "not_started");
    assert_eq!(ExecutionState::Completed.as_str(), "completed");
    assert_eq!(ExecutionState::OutcomeUnknown.as_str(), "outcome_unknown");
    assert_eq!(SnapshotMode::Auto.as_str(), "auto");
    assert_eq!(SnapshotMode::Full.as_str(), "full");
    assert_eq!(SnapshotMode::Interactive.as_str(), "interactive");
    assert_eq!(SnapshotMode::default(), SnapshotMode::Auto);
}

#[test]
fn browser_errors_record_certainty() {
    let e = BrowserError::not_started("k", "m");
    assert_eq!(e.execution_state, ExecutionState::NotStarted);
    assert_eq!(e.recovery_action, None);
    assert_eq!(e.message, "m");
    let e = BrowserError::uncertain("timeout", "lost", "browser_observe");
    assert_eq!(e.execution_state, ExecutionState::OutcomeUnknown);
    assert_eq!(e.recovery_action, Some("browser_observe"));
    assert_eq!(e.kind, "timeout");
    let e = BrowserError::observed("closed", "gone", None);
    assert_eq!(e.execution_state, ExecutionState::Completed);
    assert_eq!(e.recovery_action, None);
}

#[test]
fn control_capabilities_list_exactly_their_actions() {
    assert_eq!(ControlCapability::click().action_names(), vec!["click"]);
    assert_eq!(
        ControlCapability::text_input().action_names(),
        vec!["click", "input_text"]
    );
    assert_eq!(
        ControlCapability::select_option().action_names(),
        vec!["select_option"]
    );
    assert_eq!(ControlCapability::exact_value().action_names(), vec!["set_value"]);
    assert_eq!(ControlCapability::file_upload().action_names(), vec!["upload_file"]);
    let all = ControlCapability {
        pointer_click: true,
        text_input: true,
        select_option: true,
        exact_value: true,
        file_upload: true,
    };
    assert_eq!(
        all.action_names(),
        vec!["click", "input_text", "select_option", "set_value", "upload_file"]
    );
    let none = ControlCapability::default();
    assert!(none.action_names().is_empty());
    assert!(!none.admits_any());
    assert!(ControlCapability::file_upload().admits_any());
    assert!(!ControlCapability::file_upload().admits(AdmittedBrowserAction::Click));
    assert!(ControlCapability::file_upload().admits(AdmittedBrowserAction::UploadFile));
    assert!(!ControlCapability::select_option().admits(AdmittedBrowserAction::InputText));
    assert!(ControlCapability::text_input().admits(AdmittedBrowserAction::InputText));
    assert!(ControlCapability::exact_value().admits(AdmittedBrowserAction::SetValue));
    assert!(ControlCapability::select_option().admits(AdmittedBrowserAction::SelectOption));
}

#[test]
fn keys_map_to_cdp_triples() {
    assert_eq!(BrowserKey::Enter.cdp(), ("Enter", "Enter", "\r"));
    assert_eq!(BrowserKey::Tab.cdp(), ("Tab", "Tab", "\t"));
    assert_eq!(BrowserKey::Space.cdp(), (" ", "Space", " "));
    assert_eq!(BrowserKey::PageDown.cdp(), ("PageDown", "PageDown", ""));
    assert_eq!(BrowserKey::ArrowLeft.cdp(), ("ArrowLeft", "ArrowLeft", ""));
}

#[test]
fn clipping_keeps_whole_characters() {
    assert_eq!(clip_chars("héllo", 2), "hé");
    assert_eq!(clip_chars("hi", 10), "hi");
    assert_eq!(clip_chars("abc", 0), "");
    assert_eq!(clip_bytes("héllo", 2), "h");
    assert_eq!(clip_bytes("héllo", 3), "hé");
    assert_eq!(clip_bytes("hello", 5), "hello");
    assert_eq!(clip_bytes("黑风雷", 7), "黑风");
    assert_eq!(clip_bytes("黑", 2), "");
    assert_eq!(clip_bytes("", 0), "");
}

#[test]
fn shutdown_report_starts_empty() {
    let r = BrowserShutdownReport::default();
    assert_eq!((r.browsers, r.timed_out, r.failures), (0, 0, 0));
}

#[test]
fn clipping_by_bytes_is_idempotent_and_monotone() {
    for value in ["héllo wörld", "黑风雷", "plain ascii", ""] {
        for high in 0..16usize {
            for low in 0..=high {
                let kept_low = clip_bytes(value, low);
                let kept_high = clip_bytes(value, high);
                assert_eq!(clip_bytes(&kept_low, low), kept_low);
                assert_eq!(clip_bytes(&kept_high, low), kept_low);
                assert!(kept_high.starts_with(&kept_low));
            }
        }
    }
}
