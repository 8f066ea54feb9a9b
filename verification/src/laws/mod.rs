//! What holds of the library's results, in the terms of what it is given.
pub mod accents;
pub mod boxes;
pub mod colors;
pub mod counts;
pub mod details;
pub mod fields;
pub mod flows;
pub mod graphs;
pub mod keys;
pub mod labels;
pub mod lists;
pub mod order;
pub mod paint;
pub mod panes;
pub mod peaks;
pub mod poller;
pub mod pool;
pub mod rates;
pub mod scales;
pub mod screen;
pub mod series;
pub mod setup;
pub mod shares;
pub mod table;
pub mod texts;
pub mod traffic;
pub mod window;
