//! An actor-style concurrency coordinator: a supervisor owns a finite pool of
//! window frames and the sole receive side of a message channel; autonomous
//! workers consume frames, emit actions and quotes, and request replenishment
//! through single-use reply channels; approved messages are forwarded to a
//! single external consumer that is never touched concurrently.
//!
//! All waiting (channel sends and receives, pauses) is done by the caller;
//! every decision — what a worker sends next, how the supervisor routes a
//! message, how the pool is split and replenished — is a verified function
//! from plain values to plain values. The `System` type states the whole
//! coordinator's laws: frames are conserved, a reply reaches only its
//! requester, and each sender's messages are relayed in send order.
use vstd::prelude::*;

mod chance;
mod coord;
mod frame;
mod hijinks;
mod id;
mod imp;
mod king;
mod quote;

pub use coord::fwd_of;
pub use coord::fwd_pred;
pub use coord::lemma_conservation;
pub use coord::lemma_conservation_trace;
pub use coord::lemma_fifo_per_sender;
pub use coord::lemma_slice_total_push;
pub use coord::lemma_slice_total_update;
pub use coord::reply_len;
pub use coord::reply_of;
pub use coord::slice_total;
pub use coord::Missive;
pub use coord::Note;
pub use coord::System;
pub use frame::take_frames;
pub use frame::Frame;
pub use frame::MIN_SPAN;
pub use hijinks::Act;
pub use hijinks::Filch;
pub use hijinks::Hijinks;
pub use hijinks::Meddle;
pub use id::Counter;
pub use id::Id;
pub use id::Identifier;
pub use imp::Imp;
pub use imp::Urge;
pub use king::ImpKing;
pub use king::Route;
pub use quote::col_of;
pub use quote::entries_of;
pub use quote::entry_author;
pub use quote::entry_of;
pub use quote::header_of;
pub use quote::lemma_catalog_tolerance;
pub use quote::no_col_before;
pub use quote::quote_rep;
pub use quote::quotes_rep;
pub use quote::row_rep;
pub use quote::rows_rep;
pub use quote::table_rows_of;
pub use quote::warnings_of;
pub use quote::Quote;
pub use quote::Quotes;
pub use quote::Row;

verus! {

/// Number of frames in the supervisor's starting pool.
pub const FRAME_POOL: usize = 100;

/// Number of frames handed to each worker, at spawn time and on each
/// replenishment.
pub const FRAMES: usize = 10;

/// Number of workers the supervisor spawns.
pub const IMPS: usize = 10;

} // verus!
