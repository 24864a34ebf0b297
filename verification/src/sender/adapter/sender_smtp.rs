//! Mail delivery over an SMTP relay: its settings, the check of addresses,
//! and the decisions of one run of the executor.

use crate::common::fluent::{FluentMessage, FluentMessageView};
use crate::sender::model::{
    result_views, SenderError, SenderErrorView, SenderExecError, SenderExecErrorView,
    SenderMailMessageModel, SenderTaskResultItem, SenderTaskResultItemView, SenderTaskStatus,
};
use std::collections::HashMap;
use crate::sender::smtp_config::{mask, masked};
use vstd::prelude::*;
use vstd::string::*;

verus! {

/// The settings of one SMTP relay.
#[derive(Debug)]
pub struct SmtpConfig {
    pub host: String,
    pub port: u16,
    pub timeout: u64,
    pub user: String,
    pub email: String,
    pub password: String,
    pub tls_domain: String,
    pub branch_limit: u16,
}

impl Default for SmtpConfig {
    fn default() -> (out: Self)
        ensures
            out.host@.len() == 0,
            out.port == 0,
            out.timeout == 0,
            out.user@.len() == 0,
            out.email@.len() == 0,
            out.password@.len() == 0,
            out.tls_domain@.len() == 0,
            out.branch_limit == 0,
    {
        SmtpConfig {
            host: String::new(),
            port: 0,
            timeout: 0,
            user: String::new(),
            email: String::new(),
            password: String::new(),
            tls_domain: String::new(),
            branch_limit: 0,
        }
    }
}

impl Clone for SmtpConfig {
    fn clone(&self) -> (out: Self)
        ensures
            out == *self,
    {
        SmtpConfig {
            host: self.host.clone(),
            port: self.port,
            timeout: self.timeout,
            user: self.user.clone(),
            email: self.email.clone(),
            password: self.password.clone(),
            tls_domain: self.tls_domain.clone(),
            branch_limit: self.branch_limit,
        }
    }
}

impl SmtpConfig {
    /// The password with all but its first and last two characters hidden.
    pub fn hide_password(&self) -> (out: String)
        ensures
            out@ == masked(self.password@),
    {
        mask(self.password.as_str())
    }

    /// The user name with all but its first and last two characters hidden.
    pub fn hide_user(&self) -> (out: String)
        ensures
            out@ == masked(self.user@),
    {
        mask(self.user.as_str())
    }

    /// The key under which these settings are stored.
    pub fn key() -> (out: &'static str)
        ensures
            out@ == "smtp-config"@,
    {
        "smtp-config"
    }

    /// How many sends may run at once over this relay: `branch_limit`, and
    /// one where it is zero.
    pub open spec fn spec_limit(&self) -> u16 {
        if self.branch_limit == 0 {
            1
        } else {
            self.branch_limit
        }
    }
}

/// How a template is sent over a relay: the sender's and the reply address
/// and the templates of subject and body.
#[derive(Debug)]
pub struct SmtpTplConfig {
    pub from_email: String,
    pub reply_email: String,
    pub subject_tpl_id: String,
    pub body_tpl_id: String,
}

impl Default for SmtpTplConfig {
    fn default() -> (out: Self)
        ensures
            out.from_email@.len() == 0,
            out.reply_email@.len() == 0,
            out.subject_tpl_id@.len() == 0,
            out.body_tpl_id@.len() == 0,
    {
        SmtpTplConfig {
            from_email: String::new(),
            reply_email: String::new(),
            subject_tpl_id: String::new(),
            body_tpl_id: String::new(),
        }
    }
}

/// The error with which the pattern `pattern` fails to compile, if it does.
pub uninterp spec fn regex_compile_error(pattern: Seq<char>) -> Option<Seq<char>>;

/// Whether the compiled pattern `pattern` matches somewhere in `text`.
pub uninterp spec fn regex_is_match(pattern: Seq<char>, text: Seq<char>) -> bool;

/// What matching `text` against `pattern` comes to.
pub open spec fn regex_outcome(pattern: Seq<char>, text: Seq<char>) -> Result<bool, Seq<char>> {
    match regex_compile_error(pattern) {
        Some(e) => Err(e),
        None => Ok(regex_is_match(pattern, text)),
    }
}

/// The view of the outcome of a match.
pub open spec fn match_view(r: Result<bool, String>) -> Result<bool, Seq<char>> {
    match r {
        Ok(b) => Ok(b),
        Err(e) => Err(e@),
    }
}

/// Compiles `pattern` with `regex::Regex::new` and asks `Regex::is_match`
/// for `text`. Believed, not proved: the outcome depends on the two strings
/// alone, the error being that of the compilation as `Display` shows it.
#[verifier::external_body]
fn pattern_matches(pattern: &str, text: &str) -> (out: Result<bool, String>)
    ensures
        match out {
            Ok(b) => regex_compile_error(pattern@) is None && b == regex_is_match(pattern@, text@),
            Err(e) => regex_compile_error(pattern@) == Some(e@),
        },
{
    match regex::Regex::new(pattern) {
        Ok(re) => Ok(re.is_match(text)),
        Err(e) => Err(e.to_string()),
    }
}

/// The pattern of an address that mail is accepted for.
pub open spec fn email_pattern() -> Seq<char> {
    r"^[A-Za-z0-9\u4e00-\u9fa5\.\-]+@[a-zA-Z0-9_-]+(\.[a-zA-Z0-9_-]+)+$"@
}

/// What the check of `email` answers once the match against the pattern of
/// addresses came to `matched`.
pub open spec fn email_verdict(email: Seq<char>, matched: Result<bool, Seq<char>>) -> Result<
    (),
    SenderErrorView,
> {
    match matched {
        Ok(true) => Ok(()),
        Ok(false) => Err(
            SenderErrorView::System(
                FluentMessageView { id: "check-email-not-match"@, data: seq![("mail"@, email)] },
            ),
        ),
        Err(e) => Err(
            SenderErrorView::System(
                FluentMessageView {
                    id: "check-email-error"@,
                    data: seq![("mail"@, email), ("msg"@, e)],
                },
            ),
        ),
    }
}

/// The view of what a check answers.
pub open spec fn verdict_view(r: Result<(), SenderError>) -> Result<(), SenderErrorView> {
    match r {
        Ok(_) => Ok(()),
        Err(e) => Err(e@),
    }
}

/// Turns the outcome of the match of `email` into the answer of the check.
pub fn email_check_result(email: &str, matched: Result<bool, String>) -> (out: Result<
    (),
    SenderError,
>)
    ensures
        verdict_view(out) == email_verdict(email@, match_view(matched)),
{
    match matched {
        Ok(true) => Ok(()),
        Ok(false) => {
            let msg = FluentMessage::new("check-email-not-match").with("mail", email);
            proof {
                assert(msg@.data =~= seq![("mail"@, email@)]);
            }
            Err(SenderError::System(msg))
        },
        Err(e) => {
            let msg = FluentMessage::new("check-email-error").with("mail", email).with(
                "msg",
                e.as_str(),
            );
            proof {
                assert(msg@.data =~= seq![("mail"@, email@), ("msg"@, e@)]);
            }
            Err(SenderError::System(msg))
        },
    }
}

/// Checks that mail can be addressed to `email`.
pub fn check_email(email: &str) -> (out: Result<(), SenderError>)
    ensures
        verdict_view(out) == email_verdict(email@, regex_outcome(email_pattern(), email@)),
{
    let matched = pattern_matches(
        r"^[A-Za-z0-9\u4e00-\u9fa5\.\-]+@[a-zA-Z0-9_-]+(\.[a-zA-Z0-9_-]+)+$",
        email,
    );
    email_check_result(email, matched)
}

/// What the check of the two addresses of a template's settings answers:
/// that of the sender's address, and then that of the reply address unless
/// it is empty.
pub open spec fn app_emails_verdict(
    from_email: Seq<char>,
    from_matched: Result<bool, Seq<char>>,
    reply_email: Seq<char>,
    reply_matched: Result<bool, Seq<char>>,
) -> Result<(), SenderErrorView> {
    if email_verdict(from_email, from_matched) is Err {
        email_verdict(from_email, from_matched)
    } else if reply_email.len() == 0 {
        Ok(())
    } else {
        email_verdict(reply_email, reply_matched)
    }
}

/// Checks the addresses that a template is to be sent with.
pub fn check_app_config_emails(from_email: &str, reply_email: &str) -> (out: Result<
    (),
    SenderError,
>)
    ensures
        verdict_view(out) == app_emails_verdict(
            from_email@,
            regex_outcome(email_pattern(), from_email@),
            reply_email@,
            regex_outcome(email_pattern(), reply_email@),
        ),
{
    match check_email(from_email) {
        Err(e) => Err(e),
        Ok(_) => {
            if reply_email.unicode_len() == 0 {
                Ok(())
            } else {
                check_email(reply_email)
            }
        },
    }
}

/// How a connection to a relay is set up.
#[derive(Debug)]
pub struct ConnectPlan {
    pub host: String,
    pub credentials: Option<(String, String)>,
    pub timeout: Option<u64>,
    pub tls_domain: Option<String>,
}

/// A plan as the contracts see it.
pub ghost struct ConnectPlanView {
    pub host: Seq<char>,
    pub credentials: Option<(Seq<char>, Seq<char>)>,
    pub timeout: Option<u64>,
    pub tls_domain: Option<Seq<char>>,
}

impl View for ConnectPlan {
    type V = ConnectPlanView;

    open spec fn view(&self) -> ConnectPlanView {
        ConnectPlanView {
            host: self.host@,
            credentials: match self.credentials {
                Some(c) => Some((c.0@, c.1@)),
                None => None,
            },
            timeout: self.timeout,
            tls_domain: match self.tls_domain {
                Some(d) => Some(d@),
                None => None,
            },
        }
    }
}

/// The connection that `config` asks for: credentials where a user or a
/// password is set, a time limit where `timeout` is not zero, and TLS for
/// the domain that is named, if one is.
pub open spec fn connect_plan_view(config: SmtpConfig, timeout: u64) -> ConnectPlanView {
    ConnectPlanView {
        host: config.host@,
        credentials: if config.user@.len() > 0 || config.password@.len() > 0 {
            Some((config.user@, config.password@))
        } else {
            None
        },
        timeout: if timeout > 0 {
            Some(timeout)
        } else {
            None
        },
        tls_domain: if config.tls_domain@.len() > 0 {
            Some(config.tls_domain@)
        } else {
            None
        },
    }
}

/// Plans the connection to the relay of `config`, with a time limit of
/// `timeout` seconds.
pub fn connect_plan(config: &SmtpConfig, timeout: u64) -> (plan: ConnectPlan)
    ensures
        plan@ == connect_plan_view(*config, timeout),
{
    let credentials = if config.user.as_str().unicode_len() > 0
        || config.password.as_str().unicode_len() > 0 {
        Some((config.user.clone(), config.password.clone()))
    } else {
        None
    };
    let tls_domain = if config.tls_domain.as_str().unicode_len() > 0 {
        Some(config.tls_domain.clone())
    } else {
        None
    };
    ConnectPlan {
        host: config.host.clone(),
        credentials,
        timeout: if timeout > 0 {
            Some(timeout)
        } else {
            None
        },
        tls_domain,
    }
}

/// The step of a run at which an executor can fail as a whole.
#[derive(Clone, Copy, Debug, PartialEq, Eq, Structural)]
pub enum ExecStage {
    /// Reading the relay's settings.
    Setting,
    /// Reading the template's settings.
    TplConfig,
    /// Reading the variables of the request.
    TplVar,
    /// Handing the variables to the templates.
    Context,
    /// Rendering the subject.
    Subject,
    /// Rendering the body.
    Body,
    /// Putting the mail together.
    Message,
    /// Connecting to the relay.
    Connect,
}

/// How many steps of a run can fail as a whole.
pub const STAGES: usize = 8;

impl ExecStage {
    /// The place of the step in a run. A run goes through its steps in this
    /// order, and ends at the first that fails: the relay's settings, the
    /// template's settings, the variables, their use as a template's context,
    /// the subject, the body, the mail, the connection. The addresses of the
    /// records are read after the context and before the subject; that step
    /// fails no run, only the records whose address is no mailbox.
    pub open spec fn spec_rank(self) -> nat {
        match self {
            ExecStage::Setting => 0,
            ExecStage::TplConfig => 1,
            ExecStage::TplVar => 2,
            ExecStage::Context => 3,
            ExecStage::Subject => 4,
            ExecStage::Body => 5,
            ExecStage::Message => 6,
            ExecStage::Connect => 7,
        }
    }

    /// The place of the step in a run.
    pub fn rank(self) -> (out: usize)
        ensures
            out == self.spec_rank(),
            out < STAGES,
    {
        match self {
            ExecStage::Setting => 0,
            ExecStage::TplConfig => 1,
            ExecStage::TplVar => 2,
            ExecStage::Context => 3,
            ExecStage::Subject => 4,
            ExecStage::Body => 5,
            ExecStage::Message => 6,
            ExecStage::Connect => 7,
        }
    }

    /// The step at the place `rank`, if there is one.
    pub fn at(rank: usize) -> (out: Option<Self>)
        ensures
            match out {
                Some(s) => s.spec_rank() == rank,
                None => rank >= STAGES,
            },
    {
        if rank == 0 {
            Some(ExecStage::Setting)
        } else if rank == 1 {
            Some(ExecStage::TplConfig)
        } else if rank == 2 {
            Some(ExecStage::TplVar)
        } else if rank == 3 {
            Some(ExecStage::Context)
        } else if rank == 4 {
            Some(ExecStage::Subject)
        } else if rank == 5 {
            Some(ExecStage::Body)
        } else if rank == 6 {
            Some(ExecStage::Message)
        } else if rank == 7 {
            Some(ExecStage::Connect)
        } else {
            None
        }
    }

    /// The step that a run starts with.
    pub fn first() -> (out: Self)
        ensures
            out.spec_rank() == 0,
    {
        ExecStage::Setting
    }

    /// The step that follows this one, and none after the last.
    pub fn next(self) -> (out: Option<Self>)
        ensures
            match out {
                Some(s) => s.spec_rank() == self.spec_rank() + 1,
                None => self.spec_rank() + 1 == STAGES,
            },
    {
        Self::at(self.rank() + 1)
    }
}

/// The step with the place `rank`.
pub open spec fn stage_at(rank: int) -> ExecStage {
    if rank == 0 {
        ExecStage::Setting
    } else if rank == 1 {
        ExecStage::TplConfig
    } else if rank == 2 {
        ExecStage::TplVar
    } else if rank == 3 {
        ExecStage::Context
    } else if rank == 4 {
        ExecStage::Subject
    } else if rank == 5 {
        ExecStage::Body
    } else if rank == 6 {
        ExecStage::Message
    } else {
        ExecStage::Connect
    }
}

/// The name under which a relay appears in an executor's errors.
pub open spec fn hand_id_view(host: Seq<char>, user: Seq<char>) -> Seq<char> {
    host + "-"@ + user
}

/// Names a relay for an executor's errors.
pub fn hand_id(host: &str, user: &str) -> (out: String)
    ensures
        out@ == hand_id_view(host@, user@),
{
    let mut out = String::from_str(host);
    out.append("-");
    out.append(user);
    out
}

/// The error that a failure at `stage` ends a run with.
///
/// What is wrong with the relay or its settings lets the batch go to the
/// next configuration; what is wrong with the request itself ends it.
pub open spec fn exec_failure_view(
    stage: ExecStage,
    hand_id: Seq<char>,
    err: Seq<char>,
) -> SenderExecErrorView {
    match stage {
        ExecStage::Setting => SenderExecErrorView::Next(
            "parse config to smtp setting fail:"@ + err,
        ),
        ExecStage::TplConfig => SenderExecErrorView::Next(
            "parse config to smtp tpl config fail["@ + hand_id + "]:"@ + err,
        ),
        ExecStage::TplVar => SenderExecErrorView::Finish(
            "load tpl fail["@ + hand_id + "]:"@ + err,
        ),
        ExecStage::Context => SenderExecErrorView::Finish(
            "prare tpl fail["@ + hand_id + "]:"@ + err,
        ),
        ExecStage::Subject => SenderExecErrorView::Finish(
            "render subject fail ["@ + hand_id + "]: "@ + err,
        ),
        ExecStage::Body => SenderExecErrorView::Finish(
            "render body fail["@ + hand_id + "]: "@ + err,
        ),
        ExecStage::Message => SenderExecErrorView::Finish(
            "parse mail body fail["@ + hand_id + "]: "@ + err,
        ),
        ExecStage::Connect => SenderExecErrorView::Next("connect fail"@ + hand_id + ": "@ + err),
    }
}

fn framed(head: &str, hand_id: &str, mid: &str, err: &str) -> (out: String)
    ensures
        out@ == head@ + hand_id@ + mid@ + err@,
{
    let mut out = String::from_str(head);
    out.append(hand_id);
    out.append(mid);
    out.append(err);
    out
}

/// Words the failure of a run at `stage`, on the relay `hand_id`, with the
/// error `err`.
pub fn exec_failure(stage: ExecStage, hand_id: &str, err: &str) -> (out: SenderExecError)
    ensures
        out@ == exec_failure_view(stage, hand_id@, err@),
{
    match stage {
        ExecStage::Setting => {
            let mut text = String::from_str("parse config to smtp setting fail:");
            text.append(err);
            SenderExecError::Next(text)
        },
        ExecStage::TplConfig => SenderExecError::Next(
            framed("parse config to smtp tpl config fail[", hand_id, "]:", err),
        ),
        ExecStage::TplVar => SenderExecError::Finish(framed("load tpl fail[", hand_id, "]:", err)),
        ExecStage::Context => SenderExecError::Finish(
            framed("prare tpl fail[", hand_id, "]:", err),
        ),
        ExecStage::Subject => SenderExecError::Finish(
            framed("render subject fail [", hand_id, "]: ", err),
        ),
        ExecStage::Body => SenderExecError::Finish(
            framed("render body fail[", hand_id, "]: ", err),
        ),
        ExecStage::Message => SenderExecError::Finish(
            framed("parse mail body fail[", hand_id, "]: ", err),
        ),
        ExecStage::Connect => SenderExecError::Next(framed("connect fail", hand_id, ": ", err)),
    }
}

/// What a run ends with, given for each step, in the order of the run, the
/// error that it failed with or `None` where it went through: the failure of
/// the first step that failed. What is given for places after the last step
/// counts for nothing.
pub open spec fn run_verdict_view(hand_id: Seq<char>, steps: Seq<Option<String>>) -> Result<
    (),
    SenderExecErrorView,
>
    decreases steps.len(),
{
    if steps.len() == 0 {
        Ok(())
    } else {
        match run_verdict_view(hand_id, steps.drop_last()) {
            Err(e) => Err(e),
            Ok(_) => match steps.last() {
                Some(e) => if steps.len() <= STAGES {
                    Err(exec_failure_view(stage_at(steps.len() - 1), hand_id, e@))
                } else {
                    Ok(())
                },
                None => Ok(()),
            },
        }
    }
}

/// Once a step has failed, what follows changes nothing.
proof fn lemma_verdict_prefix(hand_id: Seq<char>, steps: Seq<Option<String>>, n: int)
    requires
        0 <= n <= steps.len(),
    ensures
        run_verdict_view(hand_id, steps.take(n)) is Err ==> run_verdict_view(hand_id, steps)
            == run_verdict_view(hand_id, steps.take(n)),
    decreases steps.len() - n,
{
    if n < steps.len() {
        lemma_verdict_prefix(hand_id, steps, n + 1);
        assert(steps.take(n + 1).drop_last() =~= steps.take(n));
    } else {
        assert(steps.take(n) =~= steps);
    }
}

/// Settles what a run on the relay `hand_id` ends with from what each of
/// its steps came to.
pub fn run_verdict(hand_id: &str, steps: &Vec<Option<String>>) -> (out: Result<
    (),
    SenderExecError,
>)
    ensures
        (match out {
            Ok(_) => Ok(()),
            Err(e) => Err(e@),
        }) == run_verdict_view(hand_id@, steps@),
{
    let mut i: usize = 0;
    proof {
        assert(steps@.take(0) =~= Seq::empty());
    }
    while i < steps.len()
        invariant
            i <= steps@.len(),
            run_verdict_view(hand_id@, steps@.take(i as int)) is Ok,
        decreases steps@.len() - i,
    {
        proof {
            assert(steps@.take(i + 1).drop_last() =~= steps@.take(i as int));
            lemma_verdict_prefix(hand_id@, steps@, i + 1);
        }
        match &steps[i] {
            Some(e) => {
                match ExecStage::at(i) {
                    Some(stage) => {
                        assert(stage == stage_at(i as int));
                        return Err(exec_failure(stage, hand_id, e.as_str()));
                    },
                    None => {},
                }
            },
            None => {},
        }
        i += 1;
    }
    proof {
        assert(steps@.take(i as int) =~= steps@);
    }
    Ok(())
}

/// The error with which `text` fails to be read as JSON, if it does.
pub uninterp spec fn json_failure(text: Seq<char>) -> Option<Seq<char>>;

/// The error with which the JSON text `text` fails to serve as the
/// variables of a template, if it does.
pub uninterp spec fn context_failure(text: Seq<char>) -> Option<Seq<char>>;

/// Reads `text` with `serde_json::from_str` as a `serde_json::Value`.
/// Believed, not proved: whether it is JSON, and the error's text as
/// `Display` shows it, depend on the string alone.
#[verifier::external_body]
fn json_parse_error(text: &str) -> (out: Option<String>)
    ensures
        text_view(out) == json_failure(text@),
{
    match serde_json::from_str::<serde_json::Value>(text) {
        Ok(_) => None,
        Err(e) => Some(e.to_string()),
    }
}

/// Hands the JSON value that `text` stands for to
/// `tera::Context::from_value`. Believed, not proved: whether the value
/// serves as the variables of a template, and the error's text as `Display`
/// shows it, depend on the string alone.
#[verifier::external_body]
fn context_error(text: &str) -> (out: Option<String>)
    requires
        json_failure(text@) is None,
    ensures
        text_view(out) == context_failure(text@),
{
    match serde_json::from_str::<serde_json::Value>(text) {
        Ok(v) => match tera::Context::from_value(v) {
            Ok(_) => None,
            Err(e) => Some(e.to_string()),
        },
        Err(e) => Some(e.to_string()),
    }
}

/// What the check of the variables of a request answers, once reading them
/// as JSON came to `json` and handing them to the templates to `context`:
/// variables that cannot be used end the batch.
pub open spec fn tpl_var_verdict(
    hand_id: Seq<char>,
    json: Option<Seq<char>>,
    context: Option<Seq<char>>,
) -> Result<(), SenderExecErrorView> {
    match json {
        Some(e) => Err(exec_failure_view(ExecStage::TplVar, hand_id, e)),
        None => match context {
            Some(e) => Err(exec_failure_view(ExecStage::Context, hand_id, e)),
            None => Ok(()),
        },
    }
}

/// The view of what a check of a run answers.
pub open spec fn exec_verdict_view(r: Result<(), SenderExecError>) -> Result<
    (),
    SenderExecErrorView,
> {
    match r {
        Ok(_) => Ok(()),
        Err(e) => Err(e@),
    }
}

/// Settles the check of the variables of a request from what reading them
/// came to.
pub fn tpl_var_result(hand_id: &str, json: Option<String>, context: Option<String>) -> (out: Result<
    (),
    SenderExecError,
>)
    ensures
        exec_verdict_view(out) == tpl_var_verdict(hand_id@, text_view(json), text_view(context)),
{
    match json {
        Some(e) => Err(exec_failure(ExecStage::TplVar, hand_id, e.as_str())),
        None => match context {
            Some(e) => Err(exec_failure(ExecStage::Context, hand_id, e.as_str())),
            None => Ok(()),
        },
    }
}

/// Checks that the variables of a request can be handed to the templates:
/// they are JSON, and a JSON value that templates take.
pub fn check_tpl_var(hand_id: &str, tpl_var: &str) -> (out: Result<(), SenderExecError>)
    ensures
        exec_verdict_view(out) == tpl_var_verdict(
            hand_id@,
            json_failure(tpl_var@),
            context_failure(tpl_var@),
        ),
{
    let json = json_parse_error(tpl_var);
    let context = match &json {
        Some(_) => None,
        None => context_error(tpl_var),
    };
    tpl_var_result(hand_id, json, context)
}

/// The error with which `addr` fails to be read as a mailbox, if it does.
pub uninterp spec fn mailbox_failure(addr: Seq<char>) -> Option<Seq<char>>;

/// The view of an optional text.
pub open spec fn text_view(t: Option<String>) -> Option<Seq<char>> {
    match t {
        Some(s) => Some(s@),
        None => None,
    }
}

/// Reads `addr` with `lettre::message::Mailbox`'s `FromStr`. Believed, not
/// proved: whether it is a mailbox, and the error's text as `Display` shows
/// it, depend on the string alone.
#[verifier::external_body]
fn mailbox_parse_error(addr: &str) -> (out: Option<String>)
    ensures
        text_view(out) == mailbox_failure(addr@),
{
    match addr.parse::<lettre::message::Mailbox>() {
        Ok(_) => None,
        Err(e) => Some(e.to_string()),
    }
}

/// The address that replies are asked to go to: that of the request, and
/// that of the template's settings where the request names none.
pub open spec fn reply_candidate(request_reply: Seq<char>, tpl_reply: Seq<char>) -> Seq<char> {
    if request_reply.len() > 0 {
        request_reply
    } else {
        tpl_reply
    }
}

/// The addresses that a mail is sent with, each left out where it is no
/// mailbox.
#[derive(Debug)]
pub struct MailHeaders {
    pub from: Option<String>,
    pub reply_to: Option<String>,
}

/// The headers that come of the addresses once each was read as a mailbox.
pub open spec fn mail_headers_view(
    from_email: Seq<char>,
    from_failure: Option<Seq<char>>,
    reply: Seq<char>,
    reply_failure: Option<Seq<char>>,
) -> (Option<Seq<char>>, Option<Seq<char>>) {
    (
        if from_failure is None {
            Some(from_email)
        } else {
            None
        },
        if reply_failure is None {
            Some(reply)
        } else {
            None
        },
    )
}

/// Settles the sender's and the reply address of a mail from what reading
/// each as a mailbox came to: `None` for a mailbox, the error's text for
/// anything else.
pub fn choose_headers(
    from_email: &str,
    from_failure: Option<String>,
    reply: &str,
    reply_failure: Option<String>,
) -> (out: MailHeaders)
    ensures
        (text_view(out.from), text_view(out.reply_to)) == mail_headers_view(
            from_email@,
            text_view(from_failure),
            reply@,
            text_view(reply_failure),
        ),
{
    let from = match from_failure {
        None => Some(String::from_str(from_email)),
        Some(_) => None,
    };
    let reply_to = match reply_failure {
        None => Some(String::from_str(reply)),
        Some(_) => None,
    };
    MailHeaders { from, reply_to }
}

/// The address that replies are asked to go to.
pub fn reply_address<'a>(request_reply: &'a str, tpl_reply: &'a str) -> (out: &'a str)
    ensures
        out@ == reply_candidate(request_reply@, tpl_reply@),
{
    if request_reply.unicode_len() > 0 {
        request_reply
    } else {
        tpl_reply
    }
}

/// Chooses the sender's and the reply address of a mail.
pub fn mail_headers(from_email: &str, request_reply: &str, tpl_reply: &str) -> (out: MailHeaders)
    ensures
        (text_view(out.from), text_view(out.reply_to)) == mail_headers_view(
            from_email@,
            mailbox_failure(from_email@),
            reply_candidate(request_reply@, tpl_reply@),
            mailbox_failure(reply_candidate(request_reply@, tpl_reply@)),
        ),
{
    let reply = reply_address(request_reply, tpl_reply);
    let from_failure = mailbox_parse_error(from_email);
    let reply_failure = mailbox_parse_error(reply);
    choose_headers(from_email, from_failure, reply, reply_failure)
}

/// The result of a record whose address is no mailbox: a final failure
/// with the error's text.
pub open spec fn rejected_item(m: SenderMailMessageModel, err: Seq<char>) -> SenderTaskResultItemView {
    SenderTaskResultItemView {
        id: m.id,
        status: SenderTaskStatus::Failed(false),
        message: err,
        send_id: Seq::empty(),
    }
}

/// The addresses of the records that were read as mailboxes, in order.
pub open spec fn accepted_view(
    checked: Seq<(SenderMailMessageModel, Option<String>)>,
) -> Seq<Seq<char>>
    decreases checked.len(),
{
    if checked.len() == 0 {
        Seq::empty()
    } else {
        let rest = accepted_view(checked.drop_last());
        match checked.last().1 {
            None => rest.push(checked.last().0.to_mail@),
            Some(_) => rest,
        }
    }
}

/// The results of the records that were not read as mailboxes, in order.
pub open spec fn rejected_view(
    checked: Seq<(SenderMailMessageModel, Option<String>)>,
) -> Seq<SenderTaskResultItemView>
    decreases checked.len(),
{
    if checked.len() == 0 {
        Seq::empty()
    } else {
        let rest = rejected_view(checked.drop_last());
        match checked.last().1 {
            None => rest,
            Some(e) => rest.push(rejected_item(checked.last().0, e@)),
        }
    }
}

/// The views of a sequence of texts, in order.
pub open spec fn text_views(texts: Seq<String>) -> Seq<Seq<char>> {
    texts.map_values(|t: String| t@)
}

/// Parts the records of a batch, each with what reading its address as a
/// mailbox came to, into the addresses to send to and the results of the
/// records that cannot be sent.
pub fn partition_recipients(checked: &Vec<(SenderMailMessageModel, Option<String>)>) -> (out: (
    Vec<String>,
    Vec<SenderTaskResultItem>,
))
    ensures
        text_views(out.0@) == accepted_view(checked@),
        result_views(out.1@) == rejected_view(checked@),
{
    let mut to: Vec<String> = Vec::new();
    let mut bad: Vec<SenderTaskResultItem> = Vec::new();
    let mut i: usize = 0;
    proof {
        assert(text_views(to@) =~= accepted_view(checked@.take(0)));
        assert(result_views(bad@) =~= rejected_view(checked@.take(0)));
    }
    while i < checked.len()
        invariant
            i <= checked@.len(),
            text_views(to@) == accepted_view(checked@.take(i as int)),
            result_views(bad@) == rejected_view(checked@.take(i as int)),
        decreases checked@.len() - i,
    {
        proof {
            assert(checked@.take(i + 1).drop_last() =~= checked@.take(i as int));
        }
        let ghost to_before = to@;
        let ghost bad_before = bad@;
        match &checked[i].1 {
            None => {
                to.push(checked[i].0.to_mail.clone());
                proof {
                    assert(text_views(to@) =~= text_views(to_before).push(
                        checked@[i as int].0.to_mail@,
                    ));
                }
            },
            Some(e) => {
                bad.push(
                    SenderTaskResultItem {
                        id: checked[i].0.id,
                        status: SenderTaskStatus::Failed(false),
                        message: e.clone(),
                        send_id: String::new(),
                    },
                );
                proof {
                    assert(result_views(bad@) =~= result_views(bad_before).push(
                        rejected_item(checked@[i as int].0, e@),
                    ));
                }
            },
        }
        i += 1;
    }
    proof {
        assert(checked@.take(i as int) =~= checked@);
    }
    (to, bad)
}

/// Whether `checked` pairs each record of `data` with what reading its
/// address as a mailbox comes to.
pub open spec fn is_checked(
    data: Seq<SenderMailMessageModel>,
    checked: Seq<(SenderMailMessageModel, Option<String>)>,
) -> bool {
    &&& checked.len() == data.len()
    &&& forall|i: int|
        0 <= i < data.len() ==> (#[trigger] checked[i]).0 == data[i] && text_view(checked[i].1)
            == mailbox_failure(data[i].to_mail@)
}

/// Reads the address of each record of a batch as a mailbox.
pub fn check_recipients(data: &Vec<SenderMailMessageModel>) -> (checked: Vec<
    (SenderMailMessageModel, Option<String>),
>)
    ensures
        is_checked(data@, checked@),
{
    let mut checked: Vec<(SenderMailMessageModel, Option<String>)> = Vec::new();
    let mut i: usize = 0;
    while i < data.len()
        invariant
            i <= data@.len(),
            checked@.len() == i,
            forall|k: int|
                0 <= k < i ==> (#[trigger] checked@[k]).0 == data@[k] && text_view(checked@[k].1)
                    == mailbox_failure(data@[k].to_mail@),
        decreases data@.len() - i,
    {
        let failure = mailbox_parse_error(data[i].to_mail.as_str());
        checked.push((data[i].clone(), failure));
        i += 1;
    }
    checked
}

/// The result of a record whose address is a mailbox. Where the mail went
/// to the relay, the record is done with the relay's answer, or has failed
/// with the relay's error and may be tried again. Where no mail went out, the
/// record has not been delivered and may be tried again.
pub open spec fn sent_item(
    m: SenderMailMessageModel,
    response: Option<Result<String, String>>,
) -> SenderTaskResultItemView {
    match response {
        Some(Ok(text)) => SenderTaskResultItemView {
            id: m.id,
            status: SenderTaskStatus::Completed,
            message: text@,
            send_id: Seq::empty(),
        },
        Some(Err(e)) => SenderTaskResultItemView {
            id: m.id,
            status: SenderTaskStatus::Failed(true),
            message: "send email fail: "@ + e@,
            send_id: Seq::empty(),
        },
        None => SenderTaskResultItemView {
            id: m.id,
            status: SenderTaskStatus::Failed(true),
            message: "send email fail: not sent"@,
            send_id: Seq::empty(),
        },
    }
}

/// The result of one record of a batch: a final failure where its address
/// is no mailbox, and else what became of the mail.
pub open spec fn record_result(
    checked: (SenderMailMessageModel, Option<String>),
    response: Option<Result<String, String>>,
) -> SenderTaskResultItemView {
    match checked.1 {
        Some(e) => rejected_item(checked.0, e@),
        None => sent_item(checked.0, response),
    }
}

/// The results of a batch: one for each record, in the order of the
/// records.
pub open spec fn exec_results_view(
    checked: Seq<(SenderMailMessageModel, Option<String>)>,
    response: Option<Result<String, String>>,
) -> Seq<SenderTaskResultItemView> {
    Seq::new(checked.len(), |i: int| record_result(checked[i], response))
}

/// Whether a batch holds a record whose address is a mailbox, so that there
/// is a mail to send.
pub fn is_send(checked: &Vec<(SenderMailMessageModel, Option<String>)>) -> (out: bool)
    ensures
        out == exists|i: int| 0 <= i < checked@.len() && (#[trigger] checked@[i]).1 is None,
{
    let mut i: usize = 0;
    while i < checked.len()
        invariant
            i <= checked@.len(),
            forall|k: int| 0 <= k < i ==> (#[trigger] checked@[k]).1 is Some,
        decreases checked@.len() - i,
    {
        match &checked[i].1 {
            None => {
                return true;
            },
            Some(_) => {},
        }
        i += 1;
    }
    false
}

fn result_of(
    checked: &(SenderMailMessageModel, Option<String>),
    response: &Option<Result<String, String>>,
) -> (out: SenderTaskResultItem)
    ensures
        out@ == record_result(*checked, *response),
{
    match &checked.1 {
        Some(e) => SenderTaskResultItem {
            id: checked.0.id,
            status: SenderTaskStatus::Failed(false),
            message: e.clone(),
            send_id: String::new(),
        },
        None => match response {
            Some(Ok(text)) => SenderTaskResultItem {
                id: checked.0.id,
                status: SenderTaskStatus::Completed,
                message: text.clone(),
                send_id: String::new(),
            },
            Some(Err(e)) => {
                let mut message = String::from_str("send email fail: ");
                message.append(e.as_str());
                SenderTaskResultItem {
                    id: checked.0.id,
                    status: SenderTaskStatus::Failed(true),
                    message,
                    send_id: String::new(),
                }
            },
            None => SenderTaskResultItem {
                id: checked.0.id,
                status: SenderTaskStatus::Failed(true),
                message: String::from_str("send email fail: not sent"),
                send_id: String::new(),
            },
        },
    }
}

/// Puts the results of a batch together, given what reading each record's
/// address came to and, where a mail went to the relay, what the relay
/// answered.
///
/// Every record has one result. A record whose address is no mailbox has
/// failed for good, whatever became of the mail to the others.
pub fn exec_results(
    checked: &Vec<(SenderMailMessageModel, Option<String>)>,
    response: Option<Result<String, String>>,
) -> (out: Vec<SenderTaskResultItem>)
    ensures
        out@.len() == checked@.len(),
        result_views(out@) == exec_results_view(checked@, response),
{
    let mut out: Vec<SenderTaskResultItem> = Vec::new();
    let mut i: usize = 0;
    while i < checked.len()
        invariant
            i <= checked@.len(),
            out@.len() == i,
            forall|k: int|
                0 <= k < i ==> (#[trigger] out@[k])@ == record_result(checked@[k], response),
        decreases checked@.len() - i,
    {
        out.push(result_of(&checked[i], &response));
        i += 1;
    }
    proof {
        assert(result_views(out@) =~= exec_results_view(checked@, response));
    }
    out
}

/// The lines of a relay's answer, with a comma between each two.
pub open spec fn joined_view(lines: Seq<String>) -> Seq<char>
    decreases lines.len(),
{
    if lines.len() == 0 {
        Seq::empty()
    } else if lines.len() == 1 {
        lines[0]@
    } else {
        joined_view(lines.drop_last()) + ","@ + lines.last()@
    }
}

/// Joins the lines of a relay's answer.
pub fn join_response(lines: &Vec<String>) -> (out: String)
    ensures
        out@ == joined_view(lines@),
{
    let mut out = String::new();
    let mut i: usize = 0;
    while i < lines.len()
        invariant
            i <= lines@.len(),
            out@ == joined_view(lines@.take(i as int)),
        decreases lines@.len() - i,
    {
        proof {
            assert(lines@.take(i + 1).drop_last() =~= lines@.take(i as int));
        }
        if i > 0 {
            out.append(",");
        }
        out.append(lines[i].as_str());
        i += 1;
    }
    proof {
        assert(lines@.take(i as int) =~= lines@);
    }
    out
}

/// The executor that delivers mail over SMTP relays. It keeps one open
/// connection of type `T` for each template configuration that it has sent
/// with.
pub struct SmtpSenderTask<T> {
    mailer: HashMap<u64, T>,
}

impl<T> SmtpSenderTask<T> {
    /// The connections that are kept, by the id of the template
    /// configuration they were opened for.
    pub closed spec fn view(&self) -> Map<u64, T> {
        self.mailer@
    }

    /// An executor without connections.
    pub fn new() -> (out: Self)
        ensures
            out@ == Map::<u64, T>::empty(),
    {
        SmtpSenderTask { mailer: HashMap::new() }
    }

    /// The key of the settings that this executor sends with.
    pub fn setting_key(&self) -> (out: String)
        ensures
            out@ == "smtp-config"@,
    {
        String::from_str(SmtpConfig::key())
    }

    /// How many sends may run at once with `setting`: what the relay's
    /// settings allow, and one where they could not be read.
    pub fn limit(&self, setting: Option<&SmtpConfig>) -> (k: u16)
        ensures
            k >= 1,
            k == match setting {
                Some(c) => c.spec_limit(),
                None => 1,
            },
    {
        match setting {
            Some(c) => if c.branch_limit == 0 {
                1
            } else {
                c.branch_limit
            },
            None => 1,
        }
    }

    /// The connection kept for the template configuration `id`.
    pub fn connection(&self, id: u64) -> (out: Option<&T>)
        ensures
            match out {
                Some(c) => self@.contains_key(id) && *c == self@[id],
                None => !self@.contains_key(id),
            },
    {
        broadcast use vstd::std_specs::hash::group_hash_axioms;

        self.mailer.get(&id)
    }

    /// Keeps `conn` for the template configuration `id` unless one is kept
    /// already: the first connection stays.
    pub fn keep_connection(&mut self, id: u64, conn: T) -> (kept: bool)
        ensures
            kept == !old(self)@.contains_key(id),
            final(self)@ == if old(self)@.contains_key(id) {
                old(self)@
            } else {
                old(self)@.insert(id, conn)
            },
    {
        broadcast use vstd::std_specs::hash::group_hash_axioms;

        if self.mailer.contains_key(&id) {
            false
        } else {
            self.mailer.insert(id, conn);
            true
        }
    }
}

} // verus!
