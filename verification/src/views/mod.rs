//! What the terminal interface shows, as far as it does not depend on the
//! terminal.

pub mod diff_view;
pub mod list_view;
pub mod main_view;
pub mod rows;
pub mod table_view;
