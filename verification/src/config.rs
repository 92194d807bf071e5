//! Settings that shape one activation of the overlay.

use vstd::prelude::*;

verus! {

/// Where the label box sits relative to its window.
#[derive(Debug, Clone, Copy, PartialEq, Eq, Structural)]
pub enum Position {
    TopCenter,
    BottomCenter,
    TopLeft,
    BottomLeft,
    TopRight,
    BottomRight,
    Center,
}

/// The user's settings. They are read once at start-up and never change
/// afterwards.
#[derive(Debug, PartialEq, Eq)]
pub struct AppConfig {
    /// The label alphabet; characters are handed out from the front.
    pub labels: String,
    /// With fewer windows than this, focus cycles instead of showing labels.
    pub cycle_before: usize,
    /// Anchor of the label box inside its window.
    pub label_position: Position,
    /// Edge length of the square label box, in pixels.
    pub box_size: i32,
    /// Leave the most recently focused window without a label.
    pub ignore_current: bool,
    /// Dim unfocused windows while the overlay is shown.
    pub dim_inactive: bool,
    /// Width of the label column in the list of off-workspace windows.
    pub workspace_label_width: i32,
    /// Offer the windows of every workspace, not only the active one.
    pub ignore_workspace: bool,
}

impl Clone for AppConfig {
    fn clone(&self) -> (c: AppConfig)
        ensures
            c == *self,
    {
        AppConfig {
            labels: self.labels.clone(),
            cycle_before: self.cycle_before,
            label_position: self.label_position,
            box_size: self.box_size,
            ignore_current: self.ignore_current,
            dim_inactive: self.dim_inactive,
            workspace_label_width: self.workspace_label_width,
            ignore_workspace: self.ignore_workspace,
        }
    }
}

} // verus!
