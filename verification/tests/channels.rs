use sendmail_mcp::channels::discord;
use sendmail_mcp::channels::ntfy::{self, NtfyConfig};
use sendmail_mcp::channels::slack;
use sendmail_mcp::channels::telegram::validate_chat_id;
use sendmail_mcp::channels::{email, registry, ValueProblem};
use sendmail_mcp::smtp::{Encryption, SmtpConfig, SmtpEnv};
use sendmail_mcp::telegram::escape_markdown;

#[test]
fn accepts_simple_topic_names() {
    assert!(ntfy::validate_topic("max_mustermann").is_ok());
    assert!(ntfy::validate_topic("Team-Alerts-2").is_ok());
}

#[test]
fn rejects_topics_with_path_separators_or_whitespace() {
    assert!(ntfy::validate_topic("").is_err());
    assert!(ntfy::validate_topic("foo/bar").is_err());
    assert!(ntfy::validate_topic("foo bar").is_err());
}

#[test]
fn server_from_env_defaults_and_strips_trailing_slash() {
    assert_eq!(NtfyConfig::from_env(None, None).server, "https://ntfy.sh");
    assert_eq!(
        NtfyConfig::from_env(Some("https://ntfy.example.com/".to_string()), None).server,
        "https://ntfy.example.com"
    );
}

#[test]
fn telegram_escapes_markdown_special_chars() {
    assert_eq!(escape_markdown("Hallo (Welt)!"), r"Hallo \(Welt\)\!");
    assert_eq!(escape_markdown("100% fertig."), r"100% fertig\.");
}

#[test]
fn validates_numeric_chat_ids_only() {
    assert!(validate_chat_id("123456789").is_ok());
    assert!(validate_chat_id("-1001234567890").is_ok());
    assert!(validate_chat_id("@max_mustermann").is_err());
}

#[test]
fn accepts_valid_discord_webhook_urls() {
    assert!(discord::validate_webhook_url("https://discord.com/api/webhooks/123456789/abcDEF-token").is_ok());
    assert!(discord::validate_webhook_url("https://discordapp.com/api/webhooks/123456789/abcDEF-token").is_ok());
}

#[test]
fn rejects_non_discord_or_malformed_urls() {
    assert!(discord::validate_webhook_url("").is_err());
    assert!(discord::validate_webhook_url("not a url").is_err());
    assert!(discord::validate_webhook_url("http://discord.com/api/webhooks/1/token").is_err());
    assert!(discord::validate_webhook_url("https://evil.example.com/api/webhooks/1/token").is_err());
    assert!(discord::validate_webhook_url("https://discord.com/some/other/path").is_err());
}

#[test]
fn accepts_valid_slack_webhook_urls() {
    assert!(slack::validate_webhook_url("https://hooks.slack.com/services/some-team/some-bot/some-token").is_ok());
}

#[test]
fn rejects_non_slack_or_malformed_urls() {
    assert!(slack::validate_webhook_url("").is_err());
    assert!(slack::validate_webhook_url("not a url").is_err());
    assert!(slack::validate_webhook_url("http://hooks.slack.com/services/T0/B0/X").is_err());
    assert!(slack::validate_webhook_url("https://evil.example.com/services/T0/B0/X").is_err());
    assert!(slack::validate_webhook_url("https://hooks.slack.com/some/other/path").is_err());
}

#[test]
fn webhook_errors_name_the_problem() {
    let not_url = discord::validate_webhook_url("not a url").unwrap_err();
    assert_eq!(not_url.problem, ValueProblem::NotAUrl);
    assert_eq!(not_url.message(), "keine gültige URL: 'not a url'");
    let wrong_host = slack::validate_webhook_url("https://evil.example.com/services/T0/B0/X").unwrap_err();
    assert_eq!(wrong_host.problem, ValueProblem::NotASlackWebhook);
    let wrong_scheme = discord::validate_webhook_url("http://discord.com/api/webhooks/1/token").unwrap_err();
    assert_eq!(wrong_scheme.problem, ValueProblem::NotADiscordWebhook);
    assert!(discord::validate_webhook_url("https://canary.discord.com/api/webhooks/1/t").is_ok());
}

#[test]
fn email_addresses_need_an_at_sign() {
    assert!(email::validate_address("max@example.com").is_ok());
    let err = email::validate_address("nicht-valide").unwrap_err();
    assert_eq!(err.problem, ValueProblem::NotAnEmailAddress);
    assert_eq!(err.value, "nicht-valide");
    assert_eq!(err.message(), "keine gültige E-Mail-Adresse ('nicht-valide')");
}

#[test]
fn topic_and_chat_id_error_texts() {
    let err = ntfy::validate_topic("foo/bar").unwrap_err();
    assert_eq!(
        err.message(),
        "kein gültiges ntfy-Topic ('foo/bar') - erlaubt sind nur Buchstaben, Zahlen, '_' und '-'"
    );
    let err = validate_chat_id("@max").unwrap_err();
    assert_eq!(err.problem, ValueProblem::NotAChatId);
}

#[test]
fn chat_ids_follow_i64_parsing() {
    assert!(validate_chat_id("+42").is_ok());
    assert!(validate_chat_id("-9223372036854775808").is_ok());
    assert!(validate_chat_id("9223372036854775807").is_ok());
    assert!(validate_chat_id("9223372036854775808").is_err());
    assert!(validate_chat_id("-").is_err());
    assert!(validate_chat_id("").is_err());
    assert!(validate_chat_id(" 1").is_err());
}

#[test]
fn registry_offers_email_only() {
    let defs = registry();
    assert_eq!(defs.len(), 1);
    assert_eq!(defs[0].config_key, "email");
    assert_eq!(defs[0].slug, "email");
    assert_eq!(defs[0].display_name, "E-Mail");
}

#[test]
fn channel_definitions_name_their_fields() {
    assert_eq!(ntfy::channel_def().config_key, "ntfy_topic");
    assert_eq!(sendmail_mcp::channels::telegram::channel_def().config_key, "telegram_chat_id");
    assert_eq!(discord::channel_def().slug, "discord");
    assert_eq!(slack::channel_def().display_name, "Slack");
}

#[test]
fn ntfy_settings_trim_and_urls() {
    let cfg = NtfyConfig::from_env(Some("  https://push.example.org//  ".to_string()), Some("   ".to_string()));
    assert_eq!(cfg.server, "https://push.example.org");
    assert!(cfg.access_token.is_none());
    assert_eq!(ntfy::publish_url(&cfg, "alerts"), "https://push.example.org/alerts");
    assert_eq!(ntfy::health_url(&cfg), "https://push.example.org/v1/health");
    let cfg = NtfyConfig::from_env(Some("   ".to_string()), Some(" tk ".to_string()));
    assert_eq!(cfg.server, "https://ntfy.sh");
    assert_eq!(cfg.access_token.as_deref(), Some("tk"));
    assert!(ntfy::health_outcome(200, "200 OK", true).is_ok());
    assert_eq!(
        ntfy::health_outcome(503, "503 Service Unavailable", true).unwrap_err(),
        "ntfy-Verbindungstest fehlgeschlagen: HTTP 503 Service Unavailable"
    );
    assert_eq!(
        ntfy::health_outcome(200, "200 OK", false).unwrap_err(),
        "ntfy-Verbindungstest fehlgeschlagen: Server meldet sich nicht als 'healthy'"
    );
    assert!(ntfy::health_outcome(302, "302 Found", true).is_err());
}

#[test]
fn webhook_message_texts() {
    assert_eq!(discord::message_content("Hi", "Text"), "**Hi**\n\nText");
    assert_eq!(slack::message_text("Hi", "Text"), "*Hi*\n\nText");
    assert_eq!(
        sendmail_mcp::channels::delivery_outcome("Slack", 404, "404 Not Found", "no_team").unwrap_err(),
        "Slack-Versand fehlgeschlagen: HTTP 404 Not Found - no_team"
    );
    assert!(sendmail_mcp::channels::delivery_outcome("Discord", 204, "204 No Content", "").is_ok());
    assert!(sendmail_mcp::channels::delivery_outcome("ntfy", 299, "299", "").is_ok());
    assert!(sendmail_mcp::channels::delivery_outcome("ntfy", 199, "199", "").is_err());
    assert!(sendmail_mcp::channels::delivery_outcome("ntfy", 300, "300 Multiple Choices", "").is_err());
}

#[test]
fn every_markdown_special_is_escaped() {
    assert_eq!(
        escape_markdown("_*[]()~`>#+-=|{}.!"),
        r"\_\*\[\]\(\)\~\`\>\#\+\-\=\|\{\}\.\!"
    );
    assert_eq!(escape_markdown(r"a\b"), r"a\b");
    assert_eq!(escape_markdown(""), "");
    assert_eq!(escape_markdown("Grüße"), "Grüße");
}

#[test]
fn webhook_rules_on_parsed_parts() {
    assert!(discord::webhook_parts_problem("https", Some("discord.com"), "/api/webhooks/1/t").is_none());
    assert!(discord::webhook_parts_problem("https", Some("canary.discord.com"), "/api/webhooks/").is_none());
    assert!(matches!(
        discord::webhook_parts_problem("http", Some("discord.com"), "/api/webhooks/1/t"),
        Some(ValueProblem::NotADiscordWebhook)
    ));
    assert!(matches!(
        discord::webhook_parts_problem("https", None, "/api/webhooks/1/t"),
        Some(ValueProblem::NotADiscordWebhook)
    ));
    assert!(matches!(
        discord::webhook_parts_problem("https", Some("discord.com"), "/api/webhook"),
        Some(ValueProblem::NotADiscordWebhook)
    ));
    assert!(slack::webhook_parts_problem("https", Some("hooks.slack.com"), "/services/T/B/X").is_none());
    assert!(matches!(
        slack::webhook_parts_problem("https", Some("evil.example.com"), "/services/T/B/X"),
        Some(ValueProblem::NotASlackWebhook)
    ));
    assert!(matches!(
        slack::webhook_parts_problem("https", Some("hooks.slack.com"), "/other"),
        Some(ValueProblem::NotASlackWebhook)
    ));
}

#[test]
fn smtp_encryption_is_read_case_insensitively() {
    let env = |enc: &str| SmtpEnv {
        host: Some("smtp.example.com".to_string()),
        port: None,
        username: None,
        password: None,
        from_address: Some("a@b.de".to_string()),
        from_name: None,
        encryption: Some(enc.to_string()),
        timeout_secs: None,
    };
    assert_eq!(SmtpConfig::from_env(env("StartTLS")).ok().unwrap().encryption, Encryption::StartTls);
    assert_eq!(SmtpConfig::from_env(env("TLS")).ok().unwrap().encryption, Encryption::Tls);
}
