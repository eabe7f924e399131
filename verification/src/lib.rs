//! Verified core of a terminal code-review viewer: the input-mode and
//! message state machine, soft wrapping of styled diff rows, Markdown
//! rendering of pull-request descriptions, the layout of the pull-request
//! details popup, the rows of the unified and side-by-side diff views, and
//! the row bookkeeping and window of the viewport-bounded diff document.

pub mod modes;
pub mod text;
pub mod word_wrap;
pub mod markdown;
pub mod viewport;
pub mod side_by_side;
pub mod pr_details;
pub mod unified;
