//! An interactive terminal task-list editor, split into a verified core and a
//! thin I/O shell.  The core owns the task store (pending and completed
//! descriptions), the view state (active tab, selected row, edit mode), the
//! line-edit buffer, and the derivation of every drawing command; the shell
//! only performs terminal I/O and file I/O.

pub mod draw;
pub mod session;
pub mod todo;
pub mod ui;
