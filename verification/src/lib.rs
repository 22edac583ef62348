//! Request handling for a membership site: sessions, the one-time-code
//! workflows that guard account changes, and the typed table editor of the
//! administrator console.
//!
//! Nothing here performs I/O. A handler takes what its caller has read from
//! storage as plain values, changes the session store where the request asks
//! for it, and answers with the reply and with the storage writes and mails
//! that the caller is to carry out. The session store is an ordinary value
//! that the caller owns; a caller that serves requests side by side keeps it
//! behind one lock and holds the lock for single calls only.
//!
//! - [`session`]: the bounded store of expiring sessions; [`eviction`]: what
//!   its capacity guarantees.
//! - [`value`], [`text`], [`codec`]: raw storage cells, canonical text, and
//!   the typed row codec between them.
//! - [`account`], [`access`]: user records, credential refresh, signup,
//!   login and the account's own settings.
//! - [`workflow`]: the one-time-code workflows; [`token`]: the codes.
//! - [`admin`]: the table editor; [`content`]: the public pages.
//! - [`effects`]: storage writes and mails as values.
//! - [`outside`]: the calls into other crates, with what is believed of them.
pub mod access;
pub mod account;
pub mod admin;
pub mod codec;
pub mod content;
pub mod effects;
pub mod eviction;
pub mod outside;
pub mod session;
pub mod text;
pub mod token;
pub mod value;
pub mod workflow;
