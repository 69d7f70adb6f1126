//! Account wakeup bookkeeping: a bounded, deduplicated history log, a
//! per-account debounce table, quota normalisation and the text of the
//! reports that a wakeup produces.

pub mod cli;
pub mod clock;
pub mod debounce;
pub mod history;
pub mod json;
pub mod quota;
pub mod text;
pub mod vecs;
pub mod wakeup;
