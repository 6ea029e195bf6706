//! Transactions, associations and cursors for a stack machine whose
//! processes share one ordered key/value store.
//!
//! One process at a time may hold the write transaction; read transactions
//! are admitted by epochs. Cursors belong to the process and transaction
//! that opened them and are purged when that transaction ends.
//!
//! The [`state::Handler`] decides: it checks ownership and epoch, changes
//! its bookkeeping and names the work the storage engine is to do
//! ([`handler::Action`]). The caller performs that work and hands the
//! engine's answer to the matching `finish_*` or `begin_*` function.

pub mod codec;
pub mod opcode;
pub mod state;
pub mod handler;
pub mod token;
pub mod cursor;
pub mod dispatch;
