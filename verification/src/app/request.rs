//! Requests to the daemon: they wait in the outbox until they are sent.

use vstd::prelude::*;
use crate::app::command::{CaffeinateMode, LlmMode};
use crate::dialog::question::{ResolveResponse, ResponseView, response_views};
use crate::editor::text_of;

verus! {

/// What an accepted suggestion was for.
#[derive(Debug, Clone, Copy, PartialEq, Eq, Structural)]
pub enum UsageKind {
    Model,
    Slash,
    Tag,
}

/// One accepted suggestion. Tags are counted per project.
pub struct UsageRecord {
    pub kind: UsageKind,
    pub key: String,
    pub project_id: Option<String>,
}

#[verifier::ext_equal]
pub struct UsageView {
    pub kind: UsageKind,
    pub key: Seq<char>,
    pub project_id: Option<Seq<char>>,
}

impl View for UsageRecord {
    type V = UsageView;

    open spec fn view(&self) -> UsageView {
        UsageView { kind: self.kind, key: self.key@, project_id: text_of(self.project_id) }
    }
}

pub open spec fn usage_views(v: Seq<UsageRecord>) -> Seq<UsageView> {
    v.map_values(|u: UsageRecord| u@)
}

/// The command that cancels a job.
#[derive(Debug, Clone, Copy, PartialEq, Eq, Structural)]
pub enum CancelCommand {
    Jobs,
    Stop,
}

impl CancelCommand {
    pub open spec fn name(self) -> Seq<char> {
        match self {
            CancelCommand::Jobs => "/jobs"@,
            CancelCommand::Stop => "/stop"@,
        }
    }

    pub fn label(self) -> (r: &'static str)
        ensures
            r@ == self.name(),
    {
        match self {
            CancelCommand::Jobs => "/jobs",
            CancelCommand::Stop => "/stop",
        }
    }
}

/// A request to the daemon.
#[allow(inconsistent_fields)]
pub enum Request {
    CancelTurn,
    CancelJob { job_id: String, command: CancelCommand },
    /// `None` toggles.
    SetLlmMode { mode: Option<LlmMode> },
    SetAgent { name: String },
    /// The answers to an interrupt; `None` dismisses it.
    ResolveInterrupt { interrupt_id: u128, responses: Option<Vec<ResolveResponse>> },
    Prune,
    Compact,
    /// `None` toggles.
    SetSandbox { enabled: Option<bool> },
    SetCaffeinate { mode: CaffeinateMode },
    Pin { text: String },
    RecordUsage(UsageRecord),
}

#[allow(inconsistent_fields)]
pub enum RequestView {
    CancelTurn,
    CancelJob { job_id: Seq<char>, command: CancelCommand },
    SetLlmMode { mode: Option<LlmMode> },
    SetAgent { name: Seq<char> },
    ResolveInterrupt { interrupt_id: u128, responses: Option<Seq<ResponseView>> },
    Prune,
    Compact,
    SetSandbox { enabled: Option<bool> },
    SetCaffeinate { mode: CaffeinateMode },
    Pin { text: Seq<char> },
    RecordUsage(UsageView),
}

pub open spec fn responses_of(r: Option<Vec<ResolveResponse>>) -> Option<Seq<ResponseView>> {
    match r {
        Some(v) => Some(response_views(v@)),
        None => None,
    }
}

impl View for Request {
    type V = RequestView;

    open spec fn view(&self) -> RequestView {
        match self {
            Request::CancelTurn => RequestView::CancelTurn,
            Request::CancelJob { job_id, command } => RequestView::CancelJob {
                job_id: job_id@,
                command: *command,
            },
            Request::SetLlmMode { mode } => RequestView::SetLlmMode { mode: *mode },
            Request::SetAgent { name } => RequestView::SetAgent { name: name@ },
            Request::ResolveInterrupt { interrupt_id, responses } =>
                RequestView::ResolveInterrupt {
                interrupt_id: *interrupt_id,
                responses: responses_of(*responses),
            },
            Request::Prune => RequestView::Prune,
            Request::Compact => RequestView::Compact,
            Request::SetSandbox { enabled } => RequestView::SetSandbox { enabled: *enabled },
            Request::SetCaffeinate { mode } => RequestView::SetCaffeinate { mode: *mode },
            Request::Pin { text } => RequestView::Pin { text: text@ },
            Request::RecordUsage(u) => RequestView::RecordUsage(u@),
        }
    }
}

pub open spec fn request_views(v: Seq<Request>) -> Seq<RequestView> {
    v.map_values(|r: Request| r@)
}

} // verus!
