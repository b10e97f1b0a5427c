//! Outbound email: the `[schema_forge.email]` settings, the checks that
//! decide whether they describe a usable SMTP relay, and the in-memory
//! sender that records messages instead of sending them.
use vstd::prelude::*;

use crate::text::{push_str, str_to_string};

verus! {

/// SMTP transport-security mode.
#[derive(Debug, Clone, Copy, PartialEq, Eq, Structural)]
pub enum EmailTls {
    /// Implicit TLS (SMTPS) — TLS from connect, conventionally port 465.
    Implicit,
    /// Opportunistic TLS via the STARTTLS command, conventionally port 587.
    StartTls,
}

impl Default for EmailTls {
    fn default() -> (t: Self)
        ensures
            t == EmailTls::Implicit,
    {
        EmailTls::Implicit
    }
}

/// The default SMTP port: 465 (implicit TLS / SMTPS).
pub fn default_smtp_port() -> (p: u16)
    ensures
        p == 465,
{
    465
}

/// `[schema_forge.email]` section of `config.toml`. Disabled by default.
#[derive(Debug, Clone)]
pub struct EmailConfig {
    /// Master switch.
    pub enabled: bool,
    /// SMTP relay hostname.
    pub host: Option<String>,
    /// SMTP port.
    pub port: u16,
    /// Transport security mode.
    pub tls: EmailTls,
    /// `From` mailbox.
    pub from: Option<String>,
    /// SMTP AUTH username.
    pub username: Option<String>,
    /// SMTP AUTH password, supplied through the environment.
    pub password: Option<String>,
    /// Public base URL of the deployed site, for absolute links in emails.
    pub public_base_url: Option<String>,
}

impl Default for EmailConfig {
    fn default() -> (c: Self)
        ensures
            !c.enabled,
            c.host is None,
            c.port == 465,
            c.tls == EmailTls::Implicit,
            c.from is None,
            c.username is None,
            c.password is None,
            c.public_base_url is None,
    {
        EmailConfig {
            enabled: false,
            host: None,
            port: default_smtp_port(),
            tls: EmailTls::Implicit,
            from: None,
            username: None,
            password: None,
            public_base_url: None,
        }
    }
}

/// A plain-text email ready to hand to a transport.
#[derive(Debug, Clone, PartialEq, Eq)]
pub struct EmailMessage {
    /// Recipient mailbox.
    pub to: String,
    /// Subject line.
    pub subject: String,
    /// Plain-text body.
    pub body_text: String,
}

impl EmailMessage {
    /// A field-by-field copy.
    pub fn copy(&self) -> (m: Self)
        ensures
            m == *self,
    {
        EmailMessage {
            to: self.to.clone(),
            subject: self.subject.clone(),
            body_text: self.body_text.clone(),
        }
    }
}

/// Errors raised while configuring or using an [`EmailSender`].
#[derive(Debug)]
pub enum EmailError {
    /// Email delivery was requested but no usable transport is configured.
    NotConfigured,
    /// The configured values could not produce a transport.
    InvalidConfig(String),
    /// A `to`/`from` address failed to parse.
    InvalidAddress(String),
    /// The transport failed to build or deliver the message.
    Transport(String),
}

/// The message of each error.
pub open spec fn email_error_message(e: EmailError) -> Seq<char> {
    match e {
        EmailError::NotConfigured => "email is not configured; set [schema_forge.email] enabled = true with host and from"@,
        EmailError::InvalidConfig(m) => "invalid email configuration: "@ + m@,
        EmailError::InvalidAddress(m) => "invalid email address: "@ + m@,
        EmailError::Transport(m) => "smtp transport error: "@ + m@,
    }
}

impl EmailError {
    /// The error's display text.
    pub fn to_string(&self) -> (s: String)
        ensures
            s@ == email_error_message(*self),
    {
        match self {
            EmailError::NotConfigured => str_to_string(
                "email is not configured; set [schema_forge.email] enabled = true with host and from",
            ),
            EmailError::InvalidConfig(m) => {
                let mut s = str_to_string("invalid email configuration: ");
                push_str(&mut s, m.as_str());
                s
            },
            EmailError::InvalidAddress(m) => {
                let mut s = str_to_string("invalid email address: ");
                push_str(&mut s, m.as_str());
                s
            },
            EmailError::Transport(m) => {
                let mut s = str_to_string("smtp transport error: ");
                push_str(&mut s, m.as_str());
                s
            },
        }
    }
}

/// The relay settings of a usable email configuration: what an SMTP
/// transport is built from.
#[derive(Debug, Clone)]
pub struct SmtpSettings {
    pub host: String,
    pub from: String,
    pub tls: EmailTls,
    pub port: u16,
    /// Username and password, when both are set and the username is not empty.
    pub credentials: Option<(String, String)>,
    pub public_base_url: Option<String>,
}

/// A present, non-empty value.
pub open spec fn non_empty(o: Option<String>) -> bool {
    o matches Some(s) && s@.len() > 0
}

impl SmtpSettings {
    /// The relay settings of `cfg`: refused with `NotConfigured` when email
    /// is disabled, and with `InvalidConfig` when the host or the `from`
    /// mailbox is missing or empty (in that order). Credentials are used
    /// only when both are set and the username is not empty.
    pub fn from_config(cfg: &EmailConfig) -> (r: Result<SmtpSettings, EmailError>)
        ensures
            !cfg.enabled ==> r matches Err(EmailError::NotConfigured),
            cfg.enabled && !non_empty(cfg.host) ==> (r matches Err(EmailError::InvalidConfig(m)) && m@
                == "host is required"@),
            cfg.enabled && non_empty(cfg.host) && !non_empty(cfg.from) ==> (r matches Err(
                EmailError::InvalidConfig(m),
            ) && m@ == "from is required"@),
            cfg.enabled && non_empty(cfg.host) && non_empty(cfg.from) ==> (r matches Ok(s) && {
                &&& Some(s.host) == cfg.host
                &&& Some(s.from) == cfg.from
                &&& s.tls == cfg.tls
                &&& s.port == cfg.port
                &&& s.public_base_url == cfg.public_base_url
                &&& match (cfg.username, cfg.password) {
                    (Some(u), Some(p)) => if u@.len() > 0 {
                        s.credentials == Some((u, p))
                    } else {
                        s.credentials is None
                    },
                    _ => s.credentials is None,
                }
            }),
    {
        if !cfg.enabled {
            return Err(EmailError::NotConfigured);
        }
        let host = match &cfg.host {
            Some(h) => {
                if h.as_str().is_empty() {
                    return Err(EmailError::InvalidConfig(str_to_string("host is required")));
                }
                h.clone()
            },
            None => {
                return Err(EmailError::InvalidConfig(str_to_string("host is required")));
            },
        };
        let from = match &cfg.from {
            Some(f) => {
                if f.as_str().is_empty() {
                    return Err(EmailError::InvalidConfig(str_to_string("from is required")));
                }
                f.clone()
            },
            None => {
                return Err(EmailError::InvalidConfig(str_to_string("from is required")));
            },
        };
        let credentials = match (&cfg.username, &cfg.password) {
            (Some(u), Some(p)) => {
                if u.as_str().is_empty() {
                    None
                } else {
                    Some((u.clone(), p.clone()))
                }
            },
            _ => None,
        };
        Ok(
            SmtpSettings {
                host,
                from,
                tls: cfg.tls,
                port: cfg.port,
                credentials,
                public_base_url: cfg.public_base_url.clone(),
            },
        )
    }
}

/// Sends outbound email.
pub trait EmailSender {
    /// Deliver `message`.
    fn send(&mut self, message: EmailMessage) -> Result<(), EmailError>;

    /// Public base URL for building absolute links inside message bodies,
    /// if one is configured.
    fn public_base_url(&self) -> Option<&str>;
}

/// An [`EmailSender`] that records messages instead of sending them. It
/// never fails.
#[derive(Debug, Default)]
pub struct InMemoryEmailSender {
    sent: Vec<EmailMessage>,
    public_base_url: Option<String>,
}

impl InMemoryEmailSender {
    /// The messages recorded so far, in order.
    pub closed spec fn recorded(self) -> Seq<EmailMessage> {
        self.sent@
    }

    /// The base URL it was made with.
    pub closed spec fn base_url(self) -> Option<String> {
        self.public_base_url
    }

    /// A recorder with an optional base URL for link construction.
    pub fn new(public_base_url: Option<String>) -> (s: Self)
        ensures
            s.recorded() == Seq::<EmailMessage>::empty(),
            s.base_url() == public_base_url,
    {
        InMemoryEmailSender { sent: Vec::new(), public_base_url }
    }

    /// Snapshot of every message handed to `send` so far, in order.
    pub fn sent(&self) -> (v: Vec<EmailMessage>)
        ensures
            v@ == self.recorded(),
    {
        let mut v: Vec<EmailMessage> = Vec::new();
        let mut i: usize = 0;
        while i < self.sent.len()
            invariant
                i <= self.sent@.len(),
                v@ == self.sent@.subrange(0, i as int),
            decreases self.sent@.len() - i,
        {
            v.push(self.sent[i].copy());
            i += 1;
            assert(v@ =~= self.sent@.subrange(0, i as int));
        }
        assert(self.sent@.subrange(0, i as int) =~= self.sent@);
        v
    }
}

impl EmailSender for InMemoryEmailSender {
    /// Records `message` after the earlier ones.
    fn send(&mut self, message: EmailMessage) -> (r: Result<(), EmailError>)
        ensures
            r is Ok,
            final(self).recorded() == old(self).recorded().push(message),
            final(self).base_url() == old(self).base_url(),
    {
        self.sent.push(message);
        Ok(())
    }

    fn public_base_url(&self) -> (u: Option<&str>)
        ensures
            match self.base_url() {
                Some(s) => u matches Some(t) && t@ == s@,
                None => u is None,
            },
    {
        match &self.public_base_url {
            Some(s) => Some(s.as_str()),
            None => None,
        }
    }
}

} // verus!
