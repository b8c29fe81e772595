//! Application-level state: which tool runs, the command-line options and
//! the text input field.

use std::collections::HashMap;
use vstd::prelude::*;

verus! {

/// A tool of the application.
#[derive(Debug, Clone, Copy, PartialEq, Eq, Structural)]
pub enum Feature {
    /// System monitoring: CPU, memory, disks, network, processes.
    Core,
    /// Address and key utilities.
    Web3,
}

/// Where the application is: choosing a tool, or running one.
#[derive(Debug, Clone, Copy, PartialEq, Eq, Structural)]
pub enum AppState {
    FeatureSelection,
    RunningFeature(Feature),
}

/// Top-level state: where the application is, the highlighted entry of the
/// tool menu, and the tools on offer by name.
pub struct StomataState {
    pub state: AppState,
    pub selected_feature: usize,
    pub available_features: HashMap<String, Feature>,
}

/// Command-line options.
pub struct Cli {
    /// Run the interactive interface with the tool menu.
    pub interactive: bool,
    /// Refresh interval in milliseconds.
    pub interval: u64,
    /// Keep data between runs, where a tool supports it.
    pub store: bool,
    /// Tool to run directly, outside the interactive interface.
    pub feature: Option<String>,
    /// Arguments handed to that tool.
    pub args: Vec<String>,
}

/// Whether the text input field takes keys.
#[derive(Debug, Clone, Copy, PartialEq, Eq, Structural)]
pub enum InputMode {
    Normal,
    Editing,
}

/// A text input field: its text, the cursor, its mode and what was entered.
pub struct InputWidgetState {
    pub input: String,
    pub character_index: usize,
    pub input_mode: InputMode,
    pub messages: String,
}

} // verus!
