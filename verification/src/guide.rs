//! Self-contained building blocks: lists, iterators and notification.

pub mod asyncer;
pub mod builder;
pub mod cancel_task;
pub mod constgen;
pub mod effective;
pub mod errors;
pub mod generics;
pub mod iters;
pub mod linkedlist_double;
pub mod macros;
pub mod mem;
pub mod observer;
pub mod quicksort;
pub mod signal;
pub mod strings;
