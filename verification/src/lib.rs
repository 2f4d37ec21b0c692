//! A message protocol carried over a shared, unordered board of text entries:
//! the wire codec, the view of one board snapshot, and the decision rules of
//! the two parties that poll the board.

pub mod hextext;
pub mod shell;
pub mod board;
pub mod agent;
pub mod operator;
