//! Checks that inline headers (`-inl.h`, `_inl.h`) can be merged into their
//! parent headers: each must be named by an `#include` directive of its
//! parent.

pub mod batch;
pub mod components;
pub mod errors;
pub mod matcher;
pub mod path;
pub mod text;
pub mod validation;

pub use batch::{check_if_args_exist, file_list_to_string, merge, BatchError, PreconditionFailure};
pub use errors::{ErrorList, MergeError, SkipReason};
pub use matcher::contains_include;
pub use path::{get_include_relative_path, get_parent_file_path};
pub use validation::{merge_one, InlFile};
