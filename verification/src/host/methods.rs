//! Host data structures carried by host calls (MS-PSRP 2.2.3).
//!
//! These are plain values; rendering them to and reading them from CLIXML is
//! done by the message layer.
use vstd::prelude::*;

verus! {

/// A position in the host's screen buffer.
#[derive(Debug, Clone, Copy, PartialEq, Eq, Structural)]
pub struct Coordinates {
    pub x: i32,
    pub y: i32,
}

/// A width and a height in character cells.
#[derive(Debug, Clone, Copy, PartialEq, Eq, Structural)]
pub struct Size {
    pub width: i32,
    pub height: i32,
}

/// A region of the screen buffer, by its edges.
#[derive(Debug, Clone, Copy, PartialEq, Eq, Structural)]
pub struct Rectangle {
    pub left: i32,
    pub top: i32,
    pub right: i32,
    pub bottom: i32,
}

/// One character cell of the screen buffer with its colours.
#[derive(Debug, Clone, Copy, PartialEq, Eq, Structural)]
pub struct BufferCell {
    pub character: char,
    /// Foreground colour (the console colour enum's value).
    pub foreground: i32,
    /// Background colour (the console colour enum's value).
    pub background: i32,
    /// Buffer cell type (the enum's value).
    pub flags: i32,
}

/// A key press read from the host.
#[derive(Debug, Clone, Copy, PartialEq, Eq, Structural)]
pub struct KeyInfo {
    pub virtual_key_code: i32,
    pub character: char,
    pub control_key_state: i32,
    pub key_down: bool,
}

/// Progress reported by a running command.
#[derive(Debug, Clone, PartialEq, Eq)]
pub struct ProgressRecord {
    pub activity: String,
    pub status_description: String,
    pub current_operation: String,
    pub activity_id: i32,
    pub parent_activity_id: i32,
    pub percent_complete: i32,
    pub seconds_remaining: i32,
    /// Progress record type (the enum's value).
    pub record_type: i32,
}

/// One field of a `Prompt` host call.
#[derive(Debug, Clone, PartialEq, Eq)]
pub struct FieldDescription {
    pub name: String,
    pub label: String,
    pub help_message: String,
    pub is_mandatory: bool,
    /// The .NET type name of the value asked for.
    pub parameter_type: String,
}

/// One choice offered by a `PromptForChoice` host call.
#[derive(Debug, Clone, PartialEq, Eq)]
pub struct ChoiceDescription {
    pub label: String,
    pub help_message: String,
}

/// A credential answered to a `PromptForCredential` host call.
#[derive(Debug, Clone, PartialEq, Eq)]
pub struct PSCredential {
    pub user_name: String,
    /// The password as an encrypted secure-string blob.
    pub password: Vec<u8>,
}

} // verus!
