//! SMTP relays bound to an application's templates: their settings, the
//! form in which they are listed, and the choice among several of them.

use crate::sender::adapter::sender_smtp::{ConnectPlan, ConnectPlanView};
use crate::sender::smtp_config::{mask, masked};
use vstd::prelude::*;
use vstd::string::*;

verus! {

/// The settings of one SMTP relay.
#[derive(Debug)]
pub struct SmtpConfig {
    pub host: String,
    pub port: u16,
    pub timeout: u64,
    pub user: String,
    pub password: String,
    pub tls_domain: String,
}

impl Default for SmtpConfig {
    fn default() -> (out: Self)
        ensures
            out.host@.len() == 0,
            out.port == 0,
            out.timeout == 0,
            out.user@.len() == 0,
            out.password@.len() == 0,
            out.tls_domain@.len() == 0,
    {
        SmtpConfig {
            host: String::new(),
            port: 0,
            timeout: 0,
            user: String::new(),
            password: String::new(),
            tls_domain: String::new(),
        }
    }
}

impl Clone for SmtpConfig {
    fn clone(&self) -> (out: Self)
        ensures
            out == *self,
    {
        SmtpConfig {
            host: self.host.clone(),
            port: self.port,
            timeout: self.timeout,
            user: self.user.clone(),
            password: self.password.clone(),
            tls_domain: self.tls_domain.clone(),
        }
    }
}

impl SmtpConfig {
    /// The password with all but its first and last two characters hidden.
    pub fn hide_password(&self) -> (out: String)
        ensures
            out@ == masked(self.password@),
    {
        mask(self.password.as_str())
    }

    /// The user name with all but its first and last two characters hidden.
    pub fn hide_user(&self) -> (out: String)
        ensures
            out@ == masked(self.user@),
    {
        mask(self.user.as_str())
    }

    /// The key under which these settings are stored.
    pub fn key() -> (out: &'static str)
        ensures
            out@ == "smtp-config"@,
    {
        "smtp-config"
    }

    /// The connection that the settings ask for: credentials where a user
    /// or a password is set, TLS for the domain that is named, if one is,
    /// and no time limit.
    pub open spec fn connect_plan_view(&self) -> ConnectPlanView {
        ConnectPlanView {
            host: self.host@,
            credentials: if self.user@.len() > 0 || self.password@.len() > 0 {
                Some((self.user@, self.password@))
            } else {
                None
            },
            timeout: None,
            tls_domain: if self.tls_domain@.len() > 0 {
                Some(self.tls_domain@)
            } else {
                None
            },
        }
    }

    /// Plans the connection to the relay.
    pub fn connect_plan(&self) -> (plan: ConnectPlan)
        ensures
            plan@ == self.connect_plan_view(),
    {
        let credentials = if self.user.as_str().unicode_len() > 0
            || self.password.as_str().unicode_len() > 0 {
            Some((self.user.clone(), self.password.clone()))
        } else {
            None
        };
        let tls_domain = if self.tls_domain.as_str().unicode_len() > 0 {
            Some(self.tls_domain.clone())
        } else {
            None
        };
        ConnectPlan { host: self.host.clone(), credentials, timeout: None, tls_domain }
    }
}

/// A relay's settings as they are listed, with the masked forms of user
/// and password beside the plain ones.
#[derive(Debug)]
pub struct ShowSmtpConfig {
    pub id: u64,
    pub name: String,
    pub host: String,
    pub port: u16,
    pub timeout: u64,
    pub user: String,
    pub hide_user: String,
    pub password: String,
    pub hide_password: String,
    pub tls_domain: String,
    pub last_user_id: u64,
    pub last_change_time: u64,
}

/// What is stored beside a relay's settings.
#[derive(Debug)]
pub struct SettingRecord {
    pub id: u64,
    pub name: String,
    pub last_user_id: u64,
    pub last_change_time: u64,
}

impl ShowSmtpConfig {
    /// The listed form of the settings `config` that are stored as `record`.
    pub fn new(record: &SettingRecord, config: &SmtpConfig) -> (out: Self)
        ensures
            out.id == record.id,
            out.name@ == record.name@,
            out.last_user_id == record.last_user_id,
            out.last_change_time == record.last_change_time,
            out.host@ == config.host@,
            out.port == config.port,
            out.timeout == config.timeout,
            out.user@ == config.user@,
            out.hide_user@ == masked(config.user@),
            out.password@ == config.password@,
            out.hide_password@ == masked(config.password@),
            out.tls_domain@ == config.tls_domain@,
    {
        ShowSmtpConfig {
            id: record.id,
            name: record.name.clone(),
            last_user_id: record.last_user_id,
            last_change_time: record.last_change_time,
            host: config.host.clone(),
            port: config.port,
            timeout: config.timeout,
            user: config.user.clone(),
            hide_user: config.hide_user(),
            password: config.password.clone(),
            hide_password: config.hide_password(),
            tls_domain: config.tls_domain.clone(),
        }
    }
}

/// Lists the relays `data`, each with what is stored beside it.
pub fn list_config(data: &Vec<(SettingRecord, SmtpConfig)>) -> (out: Vec<ShowSmtpConfig>)
    ensures
        out@.len() == data@.len(),
        forall|i: int|
            0 <= i < data@.len() ==> {
                &&& (#[trigger] out@[i]).id == data@[i].0.id
                &&& out@[i].name@ == data@[i].0.name@
                &&& out@[i].last_user_id == data@[i].0.last_user_id
                &&& out@[i].last_change_time == data@[i].0.last_change_time
                &&& out@[i].host@ == data@[i].1.host@
                &&& out@[i].port == data@[i].1.port
                &&& out@[i].timeout == data@[i].1.timeout
                &&& out@[i].user@ == data@[i].1.user@
                &&& out@[i].hide_user@ == masked(data@[i].1.user@)
                &&& out@[i].password@ == data@[i].1.password@
                &&& out@[i].hide_password@ == masked(data@[i].1.password@)
                &&& out@[i].tls_domain@ == data@[i].1.tls_domain@
            },
{
    let mut out: Vec<ShowSmtpConfig> = Vec::new();
    let mut i: usize = 0;
    while i < data.len()
        invariant
            i <= data@.len(),
            out@.len() == i,
            forall|k: int|
                0 <= k < i ==> {
                    &&& (#[trigger] out@[k]).id == data@[k].0.id
                    &&& out@[k].name@ == data@[k].0.name@
                    &&& out@[k].last_user_id == data@[k].0.last_user_id
                    &&& out@[k].last_change_time == data@[k].0.last_change_time
                    &&& out@[k].host@ == data@[k].1.host@
                    &&& out@[k].port == data@[k].1.port
                    &&& out@[k].timeout == data@[k].1.timeout
                    &&& out@[k].user@ == data@[k].1.user@
                    &&& out@[k].hide_user@ == masked(data@[k].1.user@)
                    &&& out@[k].password@ == data@[k].1.password@
                    &&& out@[k].hide_password@ == masked(data@[k].1.password@)
                    &&& out@[k].tls_domain@ == data@[k].1.tls_domain@
                },
        decreases data@.len() - i,
    {
        out.push(ShowSmtpConfig::new(&data[i].0, &data[i].1));
        i += 1;
    }
    out
}

/// The turn among the relays that an application's template can be sent
/// over. Each send takes the relay after the one that the send before it
/// took, and the first after the last.
#[derive(Clone, Copy, Debug, PartialEq, Eq, Structural)]
pub struct Rotation {
    next: usize,
}

impl Rotation {
    /// The place that the next send starts from.
    pub closed spec fn spec_next(self) -> nat {
        self.next as nat
    }

    /// A rotation that starts with the first relay.
    pub fn new() -> (out: Self)
        ensures
            out.spec_next() == 0,
    {
        Rotation { next: 0 }
    }

    /// The relay that a send takes among `len` of them.
    pub open spec fn spec_pick(self, len: nat) -> Option<nat> {
        if len == 0 {
            None
        } else {
            Some(self.spec_next() % len)
        }
    }

    /// Takes the relay of the next send among `len` of them, and none where
    /// there is no relay.
    pub fn pick(&mut self, len: usize) -> (out: Option<usize>)
        ensures
            match out {
                Some(i) => old(self).spec_pick(len as nat) == Some(i as nat) && i < len
                    && final(self).spec_next() == (i + 1) % (len as int),
                None => len == 0 && *final(self) == *old(self),
            },
    {
        if len == 0 {
            None
        } else {
            let i: usize = self.next % len;
            self.next = if i + 1 == len {
                0
            } else {
                i + 1
            };
            assert((i + 1) % (len as int) == self.next) by {
                if i + 1 == len {
                    assert((len as int) % (len as int) == 0) by (nonlinear_arith)
                        requires
                            len > 0,
                    ;
                } else {
                    assert((i + 1) % (len as int) == i + 1) by (nonlinear_arith)
                        requires
                            0 <= i + 1 < len,
                    ;
                }
            }
            Some(i)
        }
    }
}

/// The address that replies to a mail go to: the one that the request
/// names, and the sender's where it names none.
pub fn reply_address<'a>(from_email: &'a str, reply_mail: &'a str) -> (out: &'a str)
    ensures
        out@ == if reply_mail@.len() == 0 {
            from_email@
        } else {
            reply_mail@
        },
{
    if reply_mail.unicode_len() == 0 {
        from_email
    } else {
        reply_mail
    }
}

} // verus!
