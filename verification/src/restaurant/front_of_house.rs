//! Where the guests are received and served.

pub mod hosting;
pub mod serving;
