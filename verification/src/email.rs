//! Reports by email.
use vstd::prelude::*;
use vstd::string::StringExecFns;

use crate::text::optional_text;

verus! {

/// How emails are sent.
pub struct EmailConfiguration {
    pub host: String,
    pub port: u16,
    pub username: String,
    pub password: String,
    /// Sender, defaults to the username.
    pub from: Option<String>,
    pub to: String,
}

/// What is known of a mailbox: how it is written, the name in it, and the address in it.
pub type MailboxParts = (Seq<char>, Option<Seq<char>>, Seq<char>);

/// The mailbox that a text is, as `lettre::message::Mailbox` reads it: how it is written, the name
/// in it and the address in it; or what is wrong with the text.
pub uninterp spec fn parsed_mailbox(text: Seq<char>) -> Result<
    (Seq<char>, Option<Seq<char>>, Seq<char>),
    Seq<char>,
>;

/// A sender or recipient.
#[derive(Debug)]
pub struct Mailbox {
    /// The mailbox as it is written.
    pub text: String,
    /// The name, where there is one.
    pub name: Option<String>,
    /// The address.
    pub address: String,
}

impl Mailbox {
    /// The text, the name and the address.
    pub open spec fn parts(self) -> MailboxParts {
        (self.text@, optional_text(self.name), self.address@)
    }
}

/// The parts of a mailbox, or the text of the error.
pub open spec fn mailbox_parts(mailbox: Result<Mailbox, String>) -> Result<
    MailboxParts,
    Seq<char>,
> {
    match mailbox {
        Ok(mailbox) => Ok(mailbox.parts()),
        Err(reason) => Err(reason@),
    }
}

/// `lettre::message::Mailbox::from_str`, with the mailbox and the error as they are displayed.
/// All of it is a function of the text.
#[verifier::external_body]
fn parse_mailbox(text: &str) -> (mailbox: Result<Mailbox, String>)
    ensures
        mailbox_parts(mailbox) == parsed_mailbox(text@),
{
    match text.parse::<lettre::message::Mailbox>() {
        Ok(mailbox) => Ok(Mailbox {
            text: mailbox.to_string(),
            address: mailbox.email.to_string(),
            name: mailbox.name,
        }),
        Err(error) => Err(error.to_string()),
    }
}

/// Why emails cannot be sent with a configuration.
#[derive(Debug)]
pub enum EmailError {
    /// The sender is no mailbox.
    InvalidSender { text: String, reason: String },
    /// The recipient is no mailbox.
    InvalidRecipient { text: String, reason: String },
}

impl EmailError {
    /// What is wrong, in words, without the reason.
    pub open spec fn words(self) -> Seq<char> {
        match self {
            EmailError::InvalidSender { text, reason } => "invalid email sender '"@ + text@ + "'"@,
            EmailError::InvalidRecipient { text, reason } => "invalid email recipient '"@ + text@
                + "'"@,
        }
    }

    /// What is wrong, in words, without the reason.
    pub fn message(&self) -> (message: String)
        ensures
            message@ == self.words(),
    {
        match self {
            EmailError::InvalidSender { text, .. } => {
                "invalid email sender '".to_string().concat(text.as_str()).concat("'")
            },
            EmailError::InvalidRecipient { text, .. } => {
                "invalid email recipient '".to_string().concat(text.as_str()).concat("'")
            },
        }
    }
}

/// How the connection to the server is encrypted.
#[derive(Debug, Clone, Copy, PartialEq, Eq, Structural)]
pub enum Encryption {
    /// The connection begins unencrypted.
    StartTls,
    /// The connection is encrypted from the start.
    Tls,
}

/// Everything that is needed to send an email.
pub struct EmailNotifier {
    pub host: String,
    pub port: u16,
    pub encryption: Encryption,
    pub username: String,
    pub password: String,
    pub from: Mailbox,
    pub to: Mailbox,
}

impl EmailConfiguration {
    /// The configured sender, or else the username.
    pub open spec fn sender(self) -> Seq<char> {
        match self.from {
            Some(from) => from@,
            None => self.username@,
        }
    }
}

/// Port 587 uses STARTTLS, all other ports use TLS from the start.
pub open spec fn encryption_of(port: u16) -> Encryption {
    if port == 587 {
        Encryption::StartTls
    } else {
        Encryption::Tls
    }
}

/// The notifier for a configuration, where `sender` and `recipient` are what the mailboxes were
/// read as. A wrong sender is reported first.
pub open spec fn is_notifier_given(
    config: EmailConfiguration,
    sender: Result<MailboxParts, Seq<char>>,
    recipient: Result<MailboxParts, Seq<char>>,
    notifier: Result<EmailNotifier, EmailError>,
) -> bool {
    match (sender, recipient, notifier) {
        (Err(why), _, Err(EmailError::InvalidSender { text, reason })) => text@ == config.sender()
            && reason@ == why,
        (Ok(_), Err(why), Err(EmailError::InvalidRecipient { text, reason })) => text@
            == config.to@ && reason@ == why,
        (Ok(from), Ok(to), Ok(notifier)) => {
            &&& notifier.host@ == config.host@
            &&& notifier.port == config.port
            &&& notifier.encryption == encryption_of(config.port)
            &&& notifier.username@ == config.username@
            &&& notifier.password@ == config.password@
            &&& notifier.from.parts() == from
            &&& notifier.to.parts() == to
        },
        _ => false,
    }
}

impl EmailNotifier {
    /// The notifier for the configuration, with the mailboxes of the sender and the recipient
    /// given.
    pub fn from_mailboxes(
        config: &EmailConfiguration,
        sender: Result<Mailbox, String>,
        recipient: Result<Mailbox, String>,
    ) -> (notifier: Result<Self, EmailError>)
        ensures
            is_notifier_given(
                *config,
                mailbox_parts(sender),
                mailbox_parts(recipient),
                notifier,
            ),
    {
        let from = match sender {
            Ok(from) => from,
            Err(reason) => {
                let text = match &config.from {
                    Some(from) => from.clone(),
                    None => config.username.clone(),
                };
                return Err(EmailError::InvalidSender { text, reason });
            },
        };
        let to = match recipient {
            Ok(to) => to,
            Err(reason) => {
                return Err(EmailError::InvalidRecipient { text: config.to.clone(), reason });
            },
        };
        let encryption = if config.port == 587 {
            Encryption::StartTls
        } else {
            Encryption::Tls
        };
        Ok(
            EmailNotifier {
                host: config.host.clone(),
                port: config.port,
                encryption,
                username: config.username.clone(),
                password: config.password.clone(),
                from,
                to,
            },
        )
    }

    /// The notifier for the configuration. It needs a valid sender, which defaults to the
    /// username, and a valid recipient.
    pub fn new(config: &EmailConfiguration) -> (notifier: Result<Self, EmailError>)
        ensures
            is_notifier_given(
                *config,
                parsed_mailbox(config.sender()),
                parsed_mailbox(config.to@),
                notifier,
            ),
    {
        let sender = match &config.from {
            Some(from) => parse_mailbox(from.as_str()),
            None => parse_mailbox(config.username.as_str()),
        };
        let recipient = parse_mailbox(config.to.as_str());
        EmailNotifier::from_mailboxes(config, sender, recipient)
    }
}

} // verus!
