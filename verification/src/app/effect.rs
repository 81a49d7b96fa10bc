//! What is left to do outside the application after a key, a click or a
//! command.

use vstd::prelude::*;
use crate::app::command::PaneSide;
use crate::app::copy::{CopyJob, JobToCopy, job_of};
use crate::app::state::Settings;
use crate::editor::text_of;
use crate::paste::byte_lists;
use crate::text::texts;

verus! {

/// An overlay that lives outside and takes all keys while it is open.
#[derive(Debug, Clone, Copy, PartialEq, Eq, Structural)]
pub enum Overlay {
    Settings,
    ModelPicker,
    Stats,
    Sessions,
    Skills,
    Plans,
    Permissions,
}

/// Something to open.
#[derive(Debug, Clone, Copy, PartialEq, Eq, Structural)]
pub enum Panel {
    Settings,
    ModelSettings,
    ModelPicker,
    Stats,
    Context,
    Sessions,
    Skills,
    Plans,
    /// The plans that need attention.
    PlanResolver,
    Permissions,
}

/// How `/init` writes its file.
#[derive(Debug, Clone, Copy, PartialEq, Eq, Structural)]
pub enum InitMode {
    Create,
    Update,
    Overwrite,
}

/// A message that is about to be sent: as it is shown, as it goes out before its
/// `@` tags are expanded, its images, and the accepted tags.
pub struct Draft {
    pub shown: String,
    pub wire: String,
    pub images: Vec<Vec<u8>>,
    pub tags: Vec<String>,
}

#[verifier::ext_equal]
pub struct DraftView {
    pub shown: Seq<char>,
    pub wire: Seq<char>,
    pub images: Seq<Seq<u8>>,
    pub tags: Seq<Seq<char>>,
}

impl View for Draft {
    type V = DraftView;

    open spec fn view(&self) -> DraftView {
        DraftView {
            shown: self.shown@,
            wire: self.wire@,
            images: byte_lists(self.images@),
            tags: texts(self.tags@),
        }
    }
}

/// What is left to do outside.
pub enum Effect {
    /// Nothing.
    Stay,
    /// Leave the application.
    Quit,
    /// Terminate the program in the pane.
    TerminatePane,
    /// Hand the key to the program in the pane.
    ForwardToPane,
    /// Open the editor in a pane.
    OpenEditor(PaneSide),
    /// Open lazygit in a pane.
    OpenLazygit,
    /// Start the daemon.
    StartDaemon,
    /// Open the setup of a provider where none is configured.
    OfferProviderSetup,
    /// Hand the key to an overlay.
    OverlayKey(Overlay),
    /// Scroll an overlay.
    OverlayWheel { overlay: Overlay, up: bool },
    /// Hand the mouse event to the program in the pane.
    ForwardMouse,
    Open(Panel),
    Copy(CopyJob),
    /// Find the file that `/init` writes.
    FindInitTarget(Option<String>),
    /// Send the turn of `/init`.
    StartInit { display: String, mode: InitMode },
    /// Discard the session of a side conversation.
    DiscardSession { socket: String, session_id: u128 },
    /// Fork a session for a side conversation.
    ForkSession { session_id: u128 },
    RunShell(String),
    RunGit(String),
    FetchModels,
    ToggleFavorite,
    ToggleMouse,
    Rename { session_id: u128, title: String },
    Export { session_id: u128, stem: String, debug: bool },
    /// Expand the tags of a message and send it.
    Send(Draft),
    /// Attach to the session of a reviewed handoff and send it there.
    AttachHandoff { session_id: u128, handoff: String },
}

pub enum EffectView {
    Stay,
    Quit,
    TerminatePane,
    ForwardToPane,
    OpenEditor(PaneSide),
    OpenLazygit,
    StartDaemon,
    OfferProviderSetup,
    OverlayKey(Overlay),
    OverlayWheel { overlay: Overlay, up: bool },
    ForwardMouse,
    Open(Panel),
    Copy(JobToCopy),
    FindInitTarget(Option<Seq<char>>),
    StartInit { display: Seq<char>, mode: InitMode },
    DiscardSession { socket: Seq<char>, session_id: u128 },
    ForkSession { session_id: u128 },
    RunShell(Seq<char>),
    RunGit(Seq<char>),
    FetchModels,
    ToggleFavorite,
    ToggleMouse,
    Rename { session_id: u128, title: Seq<char> },
    Export { session_id: u128, stem: Seq<char>, debug: bool },
    Send(DraftView),
    AttachHandoff { session_id: u128, handoff: Seq<char> },
}

impl View for Effect {
    type V = EffectView;

    open spec fn view(&self) -> EffectView {
        match self {
            Effect::Stay => EffectView::Stay,
            Effect::Quit => EffectView::Quit,
            Effect::TerminatePane => EffectView::TerminatePane,
            Effect::ForwardToPane => EffectView::ForwardToPane,
            Effect::OpenEditor(s) => EffectView::OpenEditor(*s),
            Effect::OpenLazygit => EffectView::OpenLazygit,
            Effect::StartDaemon => EffectView::StartDaemon,
            Effect::OfferProviderSetup => EffectView::OfferProviderSetup,
            Effect::OverlayKey(o) => EffectView::OverlayKey(*o),
            Effect::OverlayWheel { overlay, up } => EffectView::OverlayWheel {
                overlay: *overlay,
                up: *up,
            },
            Effect::ForwardMouse => EffectView::ForwardMouse,
            Effect::Open(p) => EffectView::Open(*p),
            Effect::Copy(j) => EffectView::Copy(j@),
            Effect::FindInitTarget(a) => EffectView::FindInitTarget(text_of(*a)),
            Effect::StartInit { display, mode } => EffectView::StartInit {
                display: display@,
                mode: *mode,
            },
            Effect::DiscardSession { socket, session_id } => EffectView::DiscardSession {
                socket: socket@,
                session_id: *session_id,
            },
            Effect::ForkSession { session_id } => EffectView::ForkSession {
                session_id: *session_id,
            },
            Effect::RunShell(c) => EffectView::RunShell(c@),
            Effect::RunGit(a) => EffectView::RunGit(a@),
            Effect::FetchModels => EffectView::FetchModels,
            Effect::ToggleFavorite => EffectView::ToggleFavorite,
            Effect::ToggleMouse => EffectView::ToggleMouse,
            Effect::Rename { session_id, title } => EffectView::Rename {
                session_id: *session_id,
                title: title@,
            },
            Effect::Export { session_id, stem, debug } => EffectView::Export {
                session_id: *session_id,
                stem: stem@,
                debug: *debug,
            },
            Effect::Send(d) => EffectView::Send(d@),
            Effect::AttachHandoff { session_id, handoff } => EffectView::AttachHandoff {
                session_id: *session_id,
                handoff: handoff@,
            },
        }
    }
}

/// The effect of a copy, if there is something to copy.
pub open spec fn copying(j: Option<JobToCopy>) -> EffectView {
    match j {
        Some(j) => EffectView::Copy(j),
        None => EffectView::Stay,
    }
}

pub fn copy_effect(j: Option<CopyJob>) -> (r: Effect)
    ensures
        r@ == copying(job_of(j)),
{
    match j {
        Some(j) => Effect::Copy(j),
        None => Effect::Stay,
    }
}

} // verus!
