//! A persistent store of task notes.
//!
//! Every record is a note filed under an identifier that the store draws
//! itself: a time-based UUID built from a clock reading and the caller's
//! identity. Notes are kept in an ordered map on stable memory and can be
//! fetched, listed page by page, replaced and deleted.
//!
//! - [`todo`]: the operations, [`create_todo`] to [`delete_todo_by_id`].
//! - [`store`]: [`TodoStore`], the map of notes with its reads and writes.
//! - [`ident`]: [`IdGenerator`], which draws the identifiers.
//! - [`listing`]: the notes in order of identifier, and the pages cut from them.
//! - [`text`]: the order of identifiers.
//! - [`laws`]: what holds of the operations taken together.
//! - [`notes`]: the stable map itself, taken on trust.
//!
//! The store knows neither clock nor caller: both are handed to it. Where no
//! host supplies them, [`get_time`] and [`get_node_id`] stand in.

pub mod ident;
pub mod laws;
pub mod listing;
pub mod notes;
pub mod store;
pub mod text;
pub mod todo;

pub use ident::IdGenerator;
pub use store::{NotFound, TodoStore};
pub use todo::{
    create_todo, delete_todo_by_id, file_under, get_node_id, get_time, get_todo_by_id,
    get_todos_by_page, try_create, update_todo_by_id, Attempt, IcResult, MAX_ATTEMPTS,
};
