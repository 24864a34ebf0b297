//! Records shared by the delivery channels, each with the view that the
//! contracts of this crate speak of.

use crate::common::fluent::{FluentMessage, FluentMessageView};
use vstd::prelude::*;

verus! {

/// The delivery channel that a record belongs to.
#[derive(Clone, Copy, Debug, PartialEq, Eq, Structural)]
pub enum SenderType {
    Smser,
    Mailer,
}

/// How an executor reports the delivery of one record.
///
/// `Failed(true)` may be tried again; `Failed(false)` is final.
#[derive(Clone, Copy, Debug, PartialEq, Eq, Structural)]
pub enum SenderTaskStatus {
    Completed,
    Failed(bool),
}

/// The outcome of one record of a batch, as an executor hands it back.
#[derive(Debug)]
pub struct SenderTaskResultItem {
    pub id: u64,
    pub status: SenderTaskStatus,
    pub message: String,
    pub send_id: String,
}

/// A result item as the contracts see it.
pub ghost struct SenderTaskResultItemView {
    pub id: u64,
    pub status: SenderTaskStatus,
    pub message: Seq<char>,
    pub send_id: Seq<char>,
}

impl View for SenderTaskResultItem {
    type V = SenderTaskResultItemView;

    open spec fn view(&self) -> SenderTaskResultItemView {
        SenderTaskResultItemView {
            id: self.id,
            status: self.status,
            message: self.message@,
            send_id: self.send_id@,
        }
    }
}

/// The views of a sequence of result items, in order.
pub open spec fn result_views(items: Seq<SenderTaskResultItem>) -> Seq<SenderTaskResultItemView> {
    items.map_values(|r: SenderTaskResultItem| r@)
}

/// Why an executor gave up on a whole batch.
///
/// `Finish` ends the work on the batch for good; `Next` lets the same batch
/// be tried with the next configuration.
#[derive(Debug)]
pub enum SenderExecError {
    Finish(String),
    Next(String),
}

/// An executor's error as the contracts see it.
pub ghost enum SenderExecErrorView {
    Finish(Seq<char>),
    Next(Seq<char>),
}

impl View for SenderExecError {
    type V = SenderExecErrorView;

    open spec fn view(&self) -> SenderExecErrorView {
        match self {
            SenderExecError::Finish(m) => SenderExecErrorView::Finish(m@),
            SenderExecError::Next(m) => SenderExecErrorView::Next(m@),
        }
    }
}

impl SenderExecError {
    /// The text of the error, whichever way it ends the batch.
    pub fn message(&self) -> (out: String)
        ensures
            out@ == match self@ {
                SenderExecErrorView::Finish(m) => m,
                SenderExecErrorView::Next(m) => m,
            },
    {
        match self {
            SenderExecError::Finish(m) => m.clone(),
            SenderExecError::Next(m) => m.clone(),
        }
    }

    /// Whether the failure is one of the batch itself, which no other
    /// configuration could deliver either.
    pub fn is_fatal(&self) -> (fatal: bool)
        ensures
            fatal == (self@ is Finish),
    {
        match self {
            SenderExecError::Finish(_) => true,
            SenderExecError::Next(_) => false,
        }
    }
}

/// Why a request to a delivery channel was turned down.
#[derive(Debug)]
pub enum SenderError {
    Exec(String),
    System(FluentMessage),
}

/// A channel's error as the contracts see it.
pub ghost enum SenderErrorView {
    Exec(Seq<char>),
    System(FluentMessageView),
}

impl View for SenderError {
    type V = SenderErrorView;

    open spec fn view(&self) -> SenderErrorView {
        match self {
            SenderError::Exec(m) => SenderErrorView::Exec(m@),
            SenderError::System(m) => SenderErrorView::System(m@),
        }
    }
}

/// The request that a group of mail records was enqueued with.
#[derive(Debug)]
pub struct SenderMailBodyModel {
    pub id: u64,
    pub app_id: u64,
    pub tpl_id: String,
    pub tpl_var: String,
    pub reply_mail: String,
    pub max_try_num: u8,
}

/// One mail record: one recipient of a request.
#[derive(Debug)]
pub struct SenderMailMessageModel {
    pub id: u64,
    pub sender_body_id: u64,
    pub to_mail: String,
}

impl Clone for SenderMailMessageModel {
    fn clone(&self) -> (out: Self)
        ensures
            out == *self,
    {
        SenderMailMessageModel {
            id: self.id,
            sender_body_id: self.sender_body_id,
            to_mail: self.to_mail.clone(),
        }
    }
}

/// The request of a batch, as an executor gets it.
#[derive(Debug)]
pub struct MailTaskItem {
    pub mail: SenderMailBodyModel,
}

/// The records of a batch, as an executor gets them.
#[derive(Debug)]
pub struct MailTaskData {
    pub data: Vec<SenderMailMessageModel>,
}

} // verus!
