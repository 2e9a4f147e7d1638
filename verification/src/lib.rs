//! Decisions of the ZeroClaw agent runtime that guard data: which memory rows
//! an agent may read or change, and how WeChat credentials are kept on disk.
//!
//! - [`memory`] holds the agent-scoped memory: it plans the backend calls of
//!   one agent and filters what the backend answers.
//! - [`wechat`] holds the WeChat account store: account identifiers, the
//!   account index, and the order of the file operations that change it.
//! - [`text`] holds the string facts that both rest on.
//!
//! Nothing here performs input or output. A function that needs some returns
//! what has to be done next and is resumed with the outcome.

pub mod memory;
pub mod seqs;
pub mod text;
pub mod wechat;
