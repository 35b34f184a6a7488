//! The command-line tools' logic: validating monthly files and rolling a
//! month over to the next.
pub mod rollover;
pub mod validate;
