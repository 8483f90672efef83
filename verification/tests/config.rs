use sendmail_mcp::channels::registry;
use sendmail_mcp::config::{load_contacts, slugify, ConfigError, ContactEntry};

fn entry(name: &str, fields: &[(&str, &str)]) -> ContactEntry {
    ContactEntry {
        name: name.to_string(),
        fields: fields.iter().map(|(k, v)| (k.to_string(), v.to_string())).collect(),
    }
}

fn error_text(entries: Vec<ContactEntry>) -> String {
    match load_contacts(&entries) {
        Ok(_) => panic!("expected a refusal"),
        Err(e) => e.message(&registry()),
    }
}

#[test]
fn slugify_umlauts() {
    assert_eq!(slugify("Jürgen Müller"), "juergen_mueller");
    assert_eq!(slugify("Max Mustermann"), "max_mustermann");
    assert_eq!(slugify("  Anna-Lena  "), "anna_lena");
}

#[test]
fn slugify_edge_cases() {
    assert_eq!(slugify("???"), "contact");
    assert_eq!(slugify(""), "contact");
    assert_eq!(slugify("Straße 42!"), "strasse_42");
    assert_eq!(slugify("ÄÖÜ"), "aeoeue");
    assert_eq!(slugify("__a__b__"), "a_b");
}

#[test]
fn slugify_is_idempotent() {
    for name in ["Jürgen Müller", "  Anna-Lena  ", "???", "x__y", "Ünal Öz"] {
        let once = slugify(name);
        assert_eq!(slugify(&once), once);
    }
}

#[test]
fn detects_slug_collision() {
    let err = error_text(vec![
        entry("Jürgen Schmidt", &[("email", "j1@example.com")]),
        entry("Jürgen  Schmidt", &[("email", "j2@example.com")]),
    ]);
    assert!(err.contains("Namenskollision"));
}

#[test]
fn contact_needs_at_least_one_channel() {
    let err = error_text(vec![entry("Ohne Kanal", &[])]);
    assert!(err.contains("keinen einzigen Kanal"));
}

#[test]
fn rejects_unknown_field() {
    let err = error_text(vec![entry("Max Mustermann", &[("emial", "max@example.com")])]);
    assert!(err.contains("unbekannte Felder"));
}

#[test]
fn rejects_invalid_email() {
    let err = error_text(vec![entry("Max Mustermann", &[("email", "nicht-valide")])]);
    assert!(err.contains("ungültigen Wert"));
}

#[test]
fn generates_name_first_tool_name_and_title() {
    let tools = load_contacts(&vec![entry("Max Mustermann", &[("email", "max@example.com")])]).unwrap();
    assert_eq!(tools.len(), 1);
    assert_eq!(tools[0].tool_name, "send_to_max_mustermann_via_email");
    assert_eq!(tools[0].title, "Max Mustermann — E-Mail");
}

#[test]
fn empty_contact_list_is_rejected() {
    let err = error_text(vec![]);
    assert!(err.contains("keinen einzigen [[to]]-Eintrag"));
}

#[test]
fn blank_name_is_rejected() {
    let err = error_text(vec![entry("   ", &[("email", "max@example.com")])]);
    assert!(err.contains("leeren name"));
}

#[test]
fn multiple_contacts_with_one_channel_each_produce_distinct_tools() {
    let tools = load_contacts(&vec![
        entry("Max Mustermann", &[("email", "max@example.com")]),
        entry("Erika Musterfrau", &[("email", "erika@example.com")]),
    ])
    .expect("gültige Config");
    assert_eq!(tools.len(), 2);
    let names: Vec<&str> = tools.iter().map(|t| t.tool_name.as_str()).collect();
    assert!(names.contains(&"send_to_max_mustermann_via_email"));
    assert!(names.contains(&"send_to_erika_musterfrau_via_email"));
}

#[test]
fn blank_channel_value_counts_as_not_configured() {
    let err = error_text(vec![entry("Max Mustermann", &[("email", "   ")])]);
    assert!(err.contains("keinen einzigen Kanal"));
}

#[test]
fn unknown_fields_are_listed_sorted() {
    let err = error_text(vec![entry(
        "Max",
        &[("zeta", "1"), ("alpha", "2"), ("email", "m@x.de"), ("Beta", "3")],
    )]);
    assert_eq!(
        err,
        "Kontakt 'Max' hat unbekannte Felder: Beta, alpha, zeta (bekannte Kanal-Felder: email)"
    );
}

#[test]
fn refusal_texts_are_exact() {
    let err = error_text(vec![
        entry("Anna", &[("email", "a@x.de")]),
        entry("anna", &[("email", "b@x.de")]),
    ]);
    assert_eq!(
        err,
        "Namenskollision in config.toml: 'Anna' und 'anna' ergeben denselben Slug 'anna' und damit mehrdeutige Tool-Namen. Bitte einen der beiden Namen eindeutig machen (z.B. Nachname ergänzen) — der Server startet bewusst nicht mit mehrdeutigen Tool-Namen."
    );
    let err = error_text(vec![entry("Max", &[])]);
    assert_eq!(err, "Kontakt 'Max' hat keinen einzigen Kanal konfiguriert (bekannte Kanal-Felder: email)");
    let entries = vec![entry("Max", &[("email", "kein-at")])];
    match load_contacts(&entries) {
        Err(e @ ConfigError::InvalidValue { .. }) => {
            assert_eq!(e.message(&registry()), "Kontakt 'Max' hat einen ungültigen Wert für 'email'");
            assert_eq!(
                e.full_message(&registry()),
                "Kontakt 'Max' hat einen ungültigen Wert für 'email': keine gültige E-Mail-Adresse ('kein-at')"
            );
        }
        _ => panic!("expected an invalid value"),
    }
}

#[test]
fn addresses_and_names_are_trimmed() {
    let tools = load_contacts(&vec![entry("  Max Mustermann ", &[("email", "  max@example.com  ")])]).unwrap();
    assert_eq!(tools[0].contact_name, "Max Mustermann");
    assert_eq!(tools[0].address, "max@example.com");
    assert_eq!(tools[0].channel_slug, "email");
    assert_eq!(tools[0].channel_display_name, "E-Mail");
}

#[test]
fn first_refusal_wins() {
    // The blank name of the second entry is reported only after the first entry passed.
    let err = error_text(vec![entry("Max", &[("emial", "x")]), entry(" ", &[])]);
    assert!(err.contains("unbekannte Felder"));
}
