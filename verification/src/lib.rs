//! A rotate-the-tiles connector puzzle: cells with stubs on their four sides,
//! boards that know when every stub meets its neighbour, and a generator of
//! boards that can always be solved.

pub mod board;
pub mod compass;
pub mod connectors;
pub mod dice;
pub mod generate;
pub mod grid;
pub mod layout;
pub mod ui;
