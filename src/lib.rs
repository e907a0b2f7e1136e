//! An audit-finding workbook: the finding model, a codec between findings and
//! a Markdown report dialect, the editing session, command tokenizing and the
//! DOM update descriptions that the user interface consumes.

pub mod command;
pub mod export;
pub mod html;
pub mod laws;
pub mod markdown;
pub mod report;
pub mod state;
pub mod text;
