use sendmail_mcp::channels::telegram::from_env as telegram_from_env;
use sendmail_mcp::channels::registry;
use sendmail_mcp::config::{load_contacts, ContactEntry};
use sendmail_mcp::logging::{client_ip, is_error_status, log_line, RejectReason};
use sendmail_mcp::numbers::{decimal_string, parse_u16, parse_u64};
use sendmail_mcp::smtp::{
    build_mailboxes, compose_mail, parse_mailboxes, Encryption, MailboxError, SmtpConfig, SmtpEnv, SmtpEnvError,
};
use sendmail_mcp::startup::{bearer_token, channels_in_use, setting_or, uses_channel, TokenError};
use sendmail_mcp::telegram::{api_outcome, format_message, method_url, ApiCall, TelegramConfig};

fn env() -> SmtpEnv {
    SmtpEnv {
        host: Some("smtp.example.com".to_string()),
        port: None,
        username: None,
        password: None,
        from_address: Some("test@example.com".to_string()),
        from_name: None,
        encryption: None,
        timeout_secs: None,
    }
}

#[test]
fn smtp_defaults() {
    let cfg = SmtpConfig::from_env(env()).ok().unwrap();
    assert_eq!(cfg.port, 587);
    assert_eq!(cfg.encryption, Encryption::StartTls);
    assert_eq!(cfg.timeout_secs, 30);
    assert!(cfg.credentials().is_none());
}

#[test]
fn smtp_refusals() {
    let mut e = env();
    e.host = None;
    match SmtpConfig::from_env(e) {
        Err(err) => assert_eq!(err.message(), "Pflicht-ENV-Variable SMTP_HOST ist nicht gesetzt"),
        Ok(_) => panic!(),
    }
    let mut e = env();
    e.port = Some("70000".to_string());
    assert!(matches!(SmtpConfig::from_env(e), Err(SmtpEnvError::InvalidPort)));
    let mut e = env();
    e.encryption = Some("SSL".to_string());
    match SmtpConfig::from_env(e) {
        Err(err) => assert_eq!(err.message(), "SMTP_ENCRYPTION unbekannt: 'ssl' (erlaubt: starttls|tls|none)"),
        Ok(_) => panic!(),
    }
    let mut e = env();
    e.username = Some("user".to_string());
    e.password = Some("   ".to_string());
    assert!(matches!(SmtpConfig::from_env(e), Err(SmtpEnvError::CredentialsIncomplete)));
    let mut e = env();
    e.timeout_secs = Some("-1".to_string());
    assert!(matches!(SmtpConfig::from_env(e), Err(SmtpEnvError::InvalidTimeout)));
}

#[test]
fn smtp_accepts_explicit_values() {
    let mut e = env();
    e.port = Some("465".to_string());
    e.encryption = Some("TLS".to_string());
    e.username = Some("u".to_string());
    e.password = Some("p".to_string());
    e.from_name = Some("Bot".to_string());
    e.timeout_secs = Some("+5".to_string());
    let cfg = SmtpConfig::from_env(e).ok().unwrap();
    assert_eq!(cfg.port, 465);
    assert_eq!(cfg.encryption, Encryption::Tls);
    assert_eq!(cfg.timeout_secs, 5);
    assert_eq!(cfg.credentials(), Some(("u".to_string(), "p".to_string())));
    let mut e = env();
    e.encryption = Some("None".to_string());
    assert_eq!(SmtpConfig::from_env(e).ok().unwrap().encryption, Encryption::Plain);
}

#[test]
fn mailbox_without_display_name_is_valid() {
    let cfg = SmtpConfig::from_env(env()).ok().unwrap();
    let boxes = build_mailboxes(&cfg, "Max", "max@example.com").ok().unwrap();
    assert_eq!(boxes.from_name, None);
    assert_eq!(boxes.from_address, "test@example.com");
    let address: lettre::Address = boxes.from_address.parse().unwrap();
    let mailbox = lettre::message::Mailbox::new(boxes.from_name.clone(), address);
    assert_eq!(mailbox.to_string(), "test@example.com");
    assert_eq!(boxes.to_name.as_deref(), Some("Max"));
    assert_eq!(boxes.to_address, "max@example.com");
}

#[test]
fn mailboxes_keep_sender_and_recipient_apart() {
    let mut e = env();
    e.from_name = Some("Bot".to_string());
    let cfg = SmtpConfig::from_env(e).ok().unwrap();
    let boxes = build_mailboxes(&cfg, "Max Mustermann", "max@example.com").ok().unwrap();
    assert_eq!(boxes.from_name.as_deref(), Some("Bot"));
    assert_eq!(boxes.from_address, "test@example.com");
    assert_eq!(boxes.to_name.as_deref(), Some("Max Mustermann"));
    assert_eq!(boxes.to_address, "max@example.com");
    let mail = compose_mail(boxes, "Betreff", "Inhalt");
    assert_eq!(mail.subject, "Betreff");
    assert_eq!(mail.body, "Inhalt");
    assert_eq!(mail.content_type, "text/plain; charset=utf-8");
    assert_eq!(mail.mailboxes.to_address, "max@example.com");
    assert_eq!(mail.mailboxes.from_address, "test@example.com");
    assert!(lettre::message::header::ContentType::parse(&mail.content_type).is_ok());
}

#[test]
fn mailboxes_report_invalid_addresses() {
    let cfg = SmtpConfig::from_env(env()).ok().unwrap();
    assert!(matches!(build_mailboxes(&cfg, "Max", "kein-at"), Err(MailboxError::InvalidRecipient)));
    let mut e = env();
    e.from_address = Some("nope".to_string());
    let cfg = SmtpConfig::from_env(e).ok().unwrap();
    assert!(matches!(build_mailboxes(&cfg, "Max", "max@example.com"), Err(MailboxError::InvalidSender)));
    assert!(matches!(build_mailboxes(&cfg, "Max", "kein-at"), Err(MailboxError::InvalidSender)));
}

#[test]
fn legacy_mailboxes_use_the_bare_address_without_a_name() {
    let cfg = SmtpConfig::from_env(env()).ok().unwrap();
    let boxes = parse_mailboxes(&cfg, "Max", "max@example.com").ok().unwrap();
    assert_eq!(boxes.from_name, None);
    assert_eq!(boxes.from_address, "test@example.com");
    assert_eq!(boxes.to_name.as_deref(), Some("Max"));
    assert_eq!(boxes.to_address, "max@example.com");
    let mut e = env();
    e.from_name = Some("Bot".to_string());
    let cfg = SmtpConfig::from_env(e).ok().unwrap();
    let boxes = parse_mailboxes(&cfg, "Max", "max@example.com").ok().unwrap();
    assert_eq!(boxes.from_name.as_deref(), Some("Bot"));
    assert_eq!(boxes.from_address, "test@example.com");
    assert!(matches!(parse_mailboxes(&cfg, "Max", "kein-at"), Err(MailboxError::InvalidRecipient)));
    let mut e = env();
    e.from_address = Some("nope".to_string());
    let cfg = SmtpConfig::from_env(e).ok().unwrap();
    assert!(matches!(parse_mailboxes(&cfg, "Max", "max@example.com"), Err(MailboxError::InvalidSender)));
}

#[test]
fn telegram_texts_and_urls() {
    assert_eq!(format_message("Hi!", "a.b"), "*Hi\\!*\n\na\\.b");
    let cfg = TelegramConfig::from_env(Some("  123:abc ".to_string())).unwrap();
    assert_eq!(cfg.bot_token, "123:abc");
    assert!(TelegramConfig::from_env(Some("  ".to_string())).is_none());
    assert!(TelegramConfig::from_env(None).is_none());
    assert_eq!(method_url(&cfg, "getMe"), "https://api.telegram.org/bot123:abc/getMe");
    assert!(api_outcome(ApiCall::Send, 200, "200 OK", true, None).is_ok());
    assert_eq!(
        api_outcome(ApiCall::Send, 200, "200 OK", false, Some("chat not found".to_string())).unwrap_err(),
        "Telegram-Versand fehlgeschlagen: chat not found"
    );
    assert_eq!(
        api_outcome(ApiCall::ConnectionTest, 401, "401 Unauthorized", true, None).unwrap_err(),
        "Telegram-Verbindungstest fehlgeschlagen: HTTP 401 Unauthorized"
    );
    assert_eq!(
        api_outcome(ApiCall::Send, 400, "400 Bad Request", false, Some("Bad Request: chat not found".to_string()))
            .unwrap_err(),
        "Telegram-Versand fehlgeschlagen: Bad Request: chat not found"
    );
}

#[test]
fn telegram_channel_needs_its_token() {
    assert_eq!(telegram_from_env(Some("abc".to_string())).ok().unwrap().bot_token, "abc");
    match telegram_from_env(None) {
        Err(e) => assert_eq!(e.key, "TELEGRAM_BOT_TOKEN"),
        Ok(_) => panic!(),
    }
}

#[test]
fn log_lines() {
    assert_eq!(client_ip(Some(" 10.0.0.1 , 10.0.0.2"), "127.0.0.1"), "10.0.0.1");
    assert_eq!(client_ip(None, "127.0.0.1"), "127.0.0.1");
    assert_eq!(client_ip(Some(""), "127.0.0.1"), "");
    assert!(is_error_status(401));
    assert!(is_error_status(503));
    assert!(!is_error_status(200));
    assert!(!is_error_status(302));
    let reason = RejectReason("Authorization-Header fehlt");
    assert_eq!(
        log_line("127.0.0.1", "POST", "/", 401, 3, Some(&reason)),
        "127.0.0.1       POST /                    -> 401 (3ms) [Authorization-Header fehlt]"
    );
    assert_eq!(
        log_line("127.0.0.1", "GET", "/", 200, 0, None),
        format!("{:<15} {} {:<20} -> {} ({}ms)", "127.0.0.1", "GET", "/", 200, 0)
    );
}

#[test]
fn decimal_numbers() {
    assert_eq!(decimal_string(0), "0");
    assert_eq!(decimal_string(10), "10");
    assert_eq!(decimal_string(u128::MAX), u128::MAX.to_string());
    assert_eq!(parse_u16("65535"), Some(65535));
    assert_eq!(parse_u16("65536"), None);
    assert_eq!(parse_u64("-0"), None);
    assert_eq!(parse_u64("007"), Some(7));
}

#[test]
fn startup_decisions() {
    let tools = load_contacts(&vec![ContactEntry {
        name: "Max".to_string(),
        fields: vec![("email".to_string(), "m@x.de".to_string())],
    }])
    .ok()
    .unwrap();
    assert!(uses_channel(&tools, "email"));
    assert!(!uses_channel(&tools, "telegram"));
    assert_eq!(channels_in_use(&registry(), &tools).len(), 1);
    assert_eq!(channels_in_use(&registry(), &vec![]).len(), 0);
    assert_eq!(bearer_token(Some("tok".to_string())).ok().unwrap(), "tok");
    assert!(matches!(bearer_token(None), Err(TokenError::Missing)));
    match bearer_token(Some("tök".to_string())) {
        Err(e @ TokenError::NotAscii) => assert_eq!(
            e.message(),
            "MCP_BEARER_TOKEN enthält nicht-ASCII-Zeichen - HTTP-Header dürfen nur ASCII sein"
        ),
        _ => panic!(),
    }
    assert_eq!(setting_or(None, "/app/config.toml"), "/app/config.toml");
    assert_eq!(setting_or(Some("x".to_string()), "/app/config.toml"), "x");
}

#[test]
fn mailbox_error_texts() {
    let cfg = SmtpConfig::from_env(env()).ok().unwrap();
    match build_mailboxes(&cfg, "Max", "kein-at") {
        Err(e) => assert_eq!(e.message(), "Kontakt-E-Mail ist ungültig"),
        Ok(_) => panic!(),
    }
    let mut e = env();
    e.from_address = Some("nope".to_string());
    let cfg = SmtpConfig::from_env(e).ok().unwrap();
    match build_mailboxes(&cfg, "Max", "max@example.com") {
        Err(e) => assert_eq!(e.message(), "SMTP_FROM_ADDRESS ist keine gültige Absenderadresse"),
        Ok(_) => panic!(),
    }
    match parse_mailboxes(&cfg, "Max", "max@example.com") {
        Err(e) => assert_eq!(
            e.header_message(),
            "SMTP_FROM_NAME/SMTP_FROM_ADDRESS ergeben keine gültige Absenderadresse"
        ),
        Ok(_) => panic!(),
    }
    assert_eq!(MailboxError::InvalidRecipient.header_message(), "Kontakt-E-Mail ist ungültig");
}
