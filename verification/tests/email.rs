use schema_forge_acton::email::{EmailConfig, EmailError, EmailMessage, EmailSender, EmailTls, InMemoryEmailSender, SmtpSettings};

#[test]
fn config_defaults_to_disabled_smtps() {
    let cfg = EmailConfig::default();
    assert!(!cfg.enabled);
    assert_eq!(cfg.port, 465);
    assert_eq!(cfg.tls, EmailTls::Implicit);
    assert!(cfg.host.is_none());
}

#[test]
fn smtp_sender_refuses_when_disabled() {
    let cfg = EmailConfig::default();
    assert!(matches!(SmtpSettings::from_config(&cfg), Err(EmailError::NotConfigured)));
}

#[test]
fn smtp_sender_requires_host_and_from() {
    let cfg = EmailConfig {
        enabled: true,
        ..EmailConfig::default()
    };
    match SmtpSettings::from_config(&cfg) {
        Err(EmailError::InvalidConfig(m)) => assert_eq!(m, "host is required"),
        other => panic!("expected InvalidConfig, got {other:?}"),
    }
    let cfg = EmailConfig {
        enabled: true,
        host: Some("mail.example.gov".to_string()),
        ..EmailConfig::default()
    };
    match SmtpSettings::from_config(&cfg) {
        Err(EmailError::InvalidConfig(m)) => assert_eq!(m, "from is required"),
        other => panic!("expected InvalidConfig, got {other:?}"),
    }
}

#[test]
fn smtp_settings_carry_credentials_only_with_a_username() {
    let cfg = EmailConfig {
        enabled: true,
        host: Some("mail.example.gov".to_string()),
        from: Some("SchemaForge <noreply@example.gov>".to_string()),
        username: Some(String::new()),
        password: Some("secret".to_string()),
        tls: EmailTls::StartTls,
        port: 587,
        ..EmailConfig::default()
    };
    let s = SmtpSettings::from_config(&cfg).unwrap();
    assert_eq!(s.host, "mail.example.gov");
    assert_eq!(s.port, 587);
    assert_eq!(s.tls, EmailTls::StartTls);
    assert!(s.credentials.is_none());
    let cfg = EmailConfig {
        username: Some("noreply".to_string()),
        ..cfg
    };
    let s = SmtpSettings::from_config(&cfg).unwrap();
    assert_eq!(s.credentials, Some(("noreply".to_string(), "secret".to_string())));
}

#[test]
fn in_memory_sender_records_messages() {
    let mut sender = InMemoryEmailSender::new(Some("https://app.agency.gov".to_string()));
    sender
        .send(EmailMessage {
            to: "user@example.gov".to_string(),
            subject: "Welcome".to_string(),
            body_text: "hello".to_string(),
        })
        .unwrap();
    sender
        .send(EmailMessage {
            to: "other@example.gov".to_string(),
            subject: "Second".to_string(),
            body_text: "again".to_string(),
        })
        .unwrap();
    let sent = sender.sent();
    assert_eq!(sent.len(), 2);
    assert_eq!(sent[0].to, "user@example.gov");
    assert_eq!(sent[1].subject, "Second");
    assert_eq!(sender.public_base_url(), Some("https://app.agency.gov"));
}

#[test]
fn email_error_messages() {
    assert_eq!(
        EmailError::InvalidConfig("host is required".to_string()).to_string(),
        "invalid email configuration: host is required"
    );
    assert_eq!(EmailError::Transport("x".to_string()).to_string(), "smtp transport error: x");
}
