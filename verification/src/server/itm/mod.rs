//! Changing and listing the records of a collection.
pub mod change;
pub mod list;

pub use self::change::{itm_del, itm_edit};
pub use self::list::itm_list;
