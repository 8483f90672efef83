use sendmail_mcp::auth::check_bearer_token;
use sendmail_mcp::config::ChannelTool;
use sendmail_mcp::mcp_server::{CallError, SendMailServer};
use sendmail_mcp::text::redact;

fn mock_tools() -> Vec<ChannelTool> {
    vec![ChannelTool {
        contact_name: "Test Kontakt".to_string(),
        channel_slug: "mock",
        channel_display_name: "Mock",
        address: "irrelevant-fuer-den-mock".to_string(),
        tool_name: "send_to_test_kontakt_via_mock".to_string(),
        title: "Test Kontakt — Mock".to_string(),
    }]
}

#[test]
fn mcp_endpoint_rejects_missing_bearer_token() {
    assert!(check_bearer_token("test-token", None).is_some());
}

#[test]
fn tools_list_returns_the_configured_mock_tool() {
    assert!(check_bearer_token("test-token", Some("Bearer test-token")).is_none());
    let server = SendMailServer::new(mock_tools());
    let tools = server.list_tools();
    assert_eq!(tools.len(), 1);
    assert_eq!(tools[0].name, "send_to_test_kontakt_via_mock");
    assert_eq!(tools[0].title, "Test Kontakt — Mock");
    assert_eq!(tools[0].description, "Sende eine Nachricht an Test Kontakt über Mock.");
}

#[test]
fn tools_call_invokes_the_mock_channel_and_reports_success() {
    let server = SendMailServer::new(mock_tools());
    let tool = server
        .prepare_call("send_to_test_kontakt_via_mock", Some("Hallo"), Some("Testinhalt"))
        .ok()
        .expect("known tool");
    assert_eq!(tool.address, "irrelevant-fuer-den-mock");
    let (is_error, text) = SendMailServer::call_report(tool, None);
    assert!(!is_error);
    assert!(text.contains("Test Kontakt"));
    assert_eq!(text, "Nachricht an Test Kontakt wurde verschickt.");
}

#[test]
fn tool_calls_are_checked_in_order() {
    let server = SendMailServer::new(mock_tools());
    match server.prepare_call("send_to_niemand_via_mock", None, None) {
        Err(e @ CallError::UnknownTool { .. }) => {
            assert_eq!(e.message(), "unbekanntes Tool: send_to_niemand_via_mock")
        }
        _ => panic!("expected an unknown tool"),
    }
    assert!(matches!(
        server.prepare_call("send_to_test_kontakt_via_mock", None, Some("b")),
        Err(CallError::MissingSubject)
    ));
    assert!(matches!(
        server.prepare_call("send_to_test_kontakt_via_mock", Some("s"), None),
        Err(CallError::MissingBody)
    ));
    let tool = server.find("send_to_test_kontakt_via_mock").unwrap();
    let (is_error, text) = SendMailServer::call_report(tool, Some("SMTP-Versand fehlgeschlagen"));
    assert!(is_error);
    assert_eq!(text, "Versand an Test Kontakt fehlgeschlagen: SMTP-Versand fehlgeschlagen");
    assert!(server.find("x").is_none());
}

#[test]
fn failure_reports_never_show_the_address() {
    let tool = ChannelTool {
        contact_name: "Max".to_string(),
        channel_slug: "email",
        channel_display_name: "E-Mail",
        address: "max@example.com".to_string(),
        tool_name: "send_to_max_via_email".to_string(),
        title: "Max — E-Mail".to_string(),
    };
    let (is_error, text) =
        SendMailServer::call_report(&tool, Some("SMTP-Versand fehlgeschlagen: 550 max@example.com unbekannt"));
    assert!(is_error);
    assert_eq!(text, "Versand an Max fehlgeschlagen: SMTP-Versand fehlgeschlagen: 550  unbekannt");
    assert!(!text.contains("max@example.com"));
    let (_, text) = SendMailServer::call_report(&tool, Some("a max@max@example.comexample.com b"));
    assert_eq!(text, "Versand an Max fehlgeschlagen: a  b");
    let (is_error, text) = SendMailServer::call_report(&tool, None);
    assert!(!is_error);
    assert_eq!(text, "Nachricht an Max wurde verschickt.");
}

#[test]
fn redaction_cuts_out_every_occurrence() {
    assert_eq!(redact("abcabc", "bc"), "aa");
    assert_eq!(redact("aabb", "ab"), "");
    assert_eq!(redact("nichts drin", "xyz"), "nichts drin");
    assert_eq!(redact("leer", ""), "leer");
    assert_eq!(redact("", "a"), "");
}
