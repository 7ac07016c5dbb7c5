//! The menu of fixes for the diagnostic under the cursor.

pub mod diagnostic_fix_menu;
pub mod edits;
pub mod style;

pub use diagnostic_fix_menu::{
    ActionParts, DiagnosticFixMenu, FixAction, FixInfo, Highlighter, MenuEvent, NoHighlighter,
    TextEditInfo,
};
