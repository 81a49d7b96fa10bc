//! What the front end knows about the session that it was launched into.

use vstd::prelude::*;
use crate::editor::text_of;

verus! {

/// Name shown in the banner.
pub const APP_NAME: &'static str = "cockpit";

/// State of the repository around the working directory.
#[derive(Debug)]
pub struct RepoStatus {
    pub branch: String,
    pub staged: u64,
    pub unstaged: u64,
    pub unpushed: u64,
}

#[verifier::ext_equal]
pub struct RepoView {
    pub branch: Seq<char>,
    pub staged: nat,
    pub unstaged: nat,
    pub unpushed: nat,
}

impl View for RepoStatus {
    type V = RepoView;

    open spec fn view(&self) -> RepoView {
        RepoView {
            branch: self.branch@,
            staged: self.staged as nat,
            unstaged: self.unstaged as nat,
            unpushed: self.unpushed as nat,
        }
    }
}

/// Counts of the plans of a project.
#[derive(Debug, Clone, Copy, PartialEq, Eq, Structural)]
pub struct PlanStatusCounts {
    pub ready: u64,
    pub in_progress: u64,
    pub interruptions: u64,
}

impl Default for PlanStatusCounts {
    fn default() -> (r: PlanStatusCounts)
        ensures
            r == (PlanStatusCounts { ready: 0, in_progress: 0, interruptions: 0 }),
    {
        PlanStatusCounts { ready: 0, in_progress: 0, interruptions: 0 }
    }
}

/// The launch state: session, model, agent and working directory.
#[derive(Debug)]
pub struct LaunchInfo {
    pub version: String,
    pub session_id: Option<u128>,
    pub session_short_id: Option<String>,
    pub provider_line: String,
    /// Provider and model.
    pub active_model: Option<(String, String)>,
    pub active_model_is_favorite: bool,
    pub active_model_max_context: Option<u32>,
    pub active_model_supports_images: bool,
    pub cwd_display: String,
    pub repo_status: Option<RepoStatus>,
    pub agent_name: String,
    pub user_name: Option<String>,
    pub banner_enabled: bool,
}

#[verifier::ext_equal]
pub struct LaunchView {
    pub version: Seq<char>,
    pub session_id: Option<u128>,
    pub session_short_id: Option<Seq<char>>,
    pub provider_line: Seq<char>,
    pub active_model: Option<(Seq<char>, Seq<char>)>,
    pub active_model_is_favorite: bool,
    pub active_model_max_context: Option<u32>,
    pub active_model_supports_images: bool,
    pub cwd_display: Seq<char>,
    pub repo_status: Option<RepoView>,
    pub agent_name: Seq<char>,
    pub user_name: Option<Seq<char>>,
    pub banner_enabled: bool,
}

impl View for LaunchInfo {
    type V = LaunchView;

    open spec fn view(&self) -> LaunchView {
        LaunchView {
            version: self.version@,
            session_id: self.session_id,
            session_short_id: text_of(self.session_short_id),
            provider_line: self.provider_line@,
            active_model: match self.active_model {
                Some((p, m)) => Some((p@, m@)),
                None => None,
            },
            active_model_is_favorite: self.active_model_is_favorite,
            active_model_max_context: self.active_model_max_context,
            active_model_supports_images: self.active_model_supports_images,
            cwd_display: self.cwd_display@,
            repo_status: match self.repo_status {
                Some(r) => Some(r@),
                None => None,
            },
            agent_name: self.agent_name@,
            user_name: text_of(self.user_name),
            banner_enabled: self.banner_enabled,
        }
    }
}

} // verus!
