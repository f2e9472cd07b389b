//! Per-user exam-proctoring records: when an exam started and ended, the
//! timestamps of detected violations, and whether the user was kicked out for
//! filling the violation log.
//!
//! [`ExamMetadata`] holds one user's record and the transitions that the exam
//! policy applies to it; [`Proctoink`] keeps one record per [`AccountId`] and
//! reads the default record for a user that was never written.

mod account;
mod exam;
pub mod laws;
mod proctoink;

pub use account::AccountId;
pub use exam::{all_filled, is_first_free, logged, ExamMetadata, SLOTS};
pub use proctoink::{after_end, after_start, after_violation, record_in, Proctoink};
