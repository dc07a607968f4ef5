//! Student report cards: exact decimal marks, derived statistics, letter
//! grades, and the text and page layout of a one-page report.

pub mod calculator;
pub mod layout;
pub mod marks;
pub mod report;
pub mod text;
