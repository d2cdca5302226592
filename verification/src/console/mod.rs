//! The browser console's client side: the typed view of the JSON API
//! (envelope, records, request paths), the live-stream bookkeeping, and what
//! the pages decide from the data they show.
pub mod api;
pub mod live;
pub mod pages;
