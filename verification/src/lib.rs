//! Locating generated content blocks inside text documents, and scheduling
//! their regeneration from a shared job queue.
//!
//! A generated block is demarcated by a start marker and, in the paired form,
//! an end marker; the start marker carries a declarative specification of what
//! to generate. The [`template`] module parses that specification, the
//! [`page_element`] module locates a block and splits the document around it,
//! the [`queue`] module tracks job records and their claim lifecycle, the
//! [`scheduler`] module bounds how many jobs run at once, and the
//! [`sitematrix`] module resolves a wiki name to its server URL.

pub mod page_element;
pub mod queue;
pub mod scheduler;
pub mod sitematrix;
pub mod template;
