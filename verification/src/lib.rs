//! Clipboard inspection logic: classification of pasteboard types, the
//! entries that a clipboard read yields, the one-line summary shown in the
//! tray, the tray menu that lists the entries, and the command-line report.

pub mod text;
pub mod uti;
pub mod entry;
pub mod summary;
pub mod tray;
pub mod state;
pub mod size;
pub mod cli;
pub mod clock;
