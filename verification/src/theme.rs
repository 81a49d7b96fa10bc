//! Palette indexes shared by the views.

use vstd::prelude::*;

verus! {

/// Secondary text.
pub const MUTED_COLOR_INDEX: u8 = 244;

/// Focused rows and frames.
pub const ACCENT_BLUE_INDEX: u8 = 75;

/// The four kinds of context content.
pub const CONTEXT_SYSTEM_INDEX: u8 = 75;

pub const CONTEXT_BLOCK_INDEX: u8 = 141;

pub const CONTEXT_GUIDANCE_INDEX: u8 = 114;

pub const CONTEXT_MESSAGES_INDEX: u8 = 215;

/// Light grey for hints.
pub const DIM_WHITE_INDEX: u8 = 250;

/// Dark grey for borders while the agent works.
pub const BUSY_BORDER_INDEX: u8 = 238;

} // verus!
