use release_notifier::email::{
    EmailConfiguration, EmailError, EmailNotifier, Encryption, Mailbox,
};

#[test]
fn test_email_sender_defaults_to_username() {
    let email = EmailConfiguration {
        host: "smtp.example.com".to_string(),
        port: 465,
        username: "me@example.com".to_string(),
        password: "secret".to_string(),
        from: None,
        to: "you@example.com".to_string(),
    };

    let notifier = EmailNotifier::new(&email)
        .map_err(|error| error.message())
        .expect("could not create email notifier");
    assert_eq!(notifier.from.text, "me@example.com");

    let email = EmailConfiguration {
        username: "me".to_string(),
        ..email
    };
    assert!(EmailNotifier::new(&email).is_err());
}

#[test]
fn test_email_notifier_rejects_invalid_addresses() {
    let email = EmailConfiguration {
        host: "smtp.example.com".to_string(),
        port: 587,
        username: "me".to_string(),
        password: "secret".to_string(),
        from: Some("me@example.com".to_string()),
        to: "not an address".to_string(),
    };
    assert!(EmailNotifier::new(&email).is_err());
}

fn configuration(from: Option<&str>, to: &str, port: u16) -> EmailConfiguration {
    EmailConfiguration {
        host: "smtp.example.com".to_string(),
        port,
        username: "me".to_string(),
        password: "secret".to_string(),
        from: from.map(str::to_string),
        to: to.to_string(),
    }
}

#[test]
fn mailboxes_are_read() {
    let email = configuration(Some("  John Smith  <me@example.com>"), "you@example.com", 587);
    let notifier = match EmailNotifier::new(&email) {
        Ok(notifier) => notifier,
        Err(error) => panic!("{}", error.message()),
    };
    assert_eq!(notifier.from.name.as_deref(), Some("John Smith"));
    assert_eq!(notifier.from.address, "me@example.com");
    assert_eq!(notifier.from.text, "John Smith <me@example.com>");
    assert_eq!(notifier.to.name, None);
    assert_eq!(notifier.to.address, "you@example.com");
    assert_eq!(notifier.to.text, "you@example.com");
    assert_eq!(notifier.encryption, Encryption::StartTls);
    assert_eq!(notifier.port, 587);
    assert_eq!(notifier.host, "smtp.example.com");
    assert_eq!(notifier.username, "me");
    assert_eq!(notifier.password, "secret");
}

#[test]
fn only_one_port_begins_unencrypted() {
    for port in [465, 25, 586, 588, 0] {
        let email = configuration(Some("me@example.com"), "you@example.com", port);
        match EmailNotifier::new(&email) {
            Ok(notifier) => assert_eq!(notifier.encryption, Encryption::Tls),
            Err(error) => panic!("{}", error.message()),
        }
    }
}

#[test]
fn wrong_mailboxes() {
    let email = configuration(None, "nobody", 465);
    match EmailNotifier::new(&email) {
        Err(EmailError::InvalidSender { text, reason }) => {
            assert_eq!(text, "me");
            assert_eq!(reason, "Invalid input");
        }
        _ => panic!("expected an invalid sender"),
    }
    let email = configuration(Some("me@example.com"), "nobody", 465);
    match EmailNotifier::new(&email) {
        Err(error) => {
            assert_eq!(error.message(), "invalid email recipient 'nobody'");
        }
        _ => panic!("expected an invalid recipient"),
    }
    let email = configuration(Some("x"), "nobody", 465);
    match EmailNotifier::new(&email) {
        Err(error) => assert_eq!(error.message(), "invalid email sender 'x'"),
        _ => panic!("expected an invalid sender"),
    }
}

#[test]
fn given_mailboxes() {
    let email = configuration(Some("anything"), "whatever", 1);
    let mailbox = |address: &str| Mailbox {
        text: address.to_string(),
        name: None,
        address: address.to_string(),
    };
    let given = EmailNotifier::from_mailboxes(&email, Ok(mailbox("a@b.c")), Ok(mailbox("d@e.f")));
    match given {
        Ok(notifier) => assert_eq!(notifier.to.address, "d@e.f"),
        Err(error) => panic!("{}", error.message()),
    }
    let refused =
        EmailNotifier::from_mailboxes(&email, Err("why".to_string()), Ok(mailbox("d@e.f")));
    assert!(matches!(refused, Err(EmailError::InvalidSender { .. })));
    let refused =
        EmailNotifier::from_mailboxes(&email, Ok(mailbox("a@b.c")), Err("why".to_string()));
    assert!(matches!(refused, Err(EmailError::InvalidRecipient { .. })));
}
