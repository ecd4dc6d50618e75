//! Terminal dashboard core for a competition-events site: feed extraction,
//! rotating display buffers, focus handling, and the refresh coordinator.
//!
//! The verified library covers the feed-normalization logic (HTML tables and
//! an RSS title stream turned into typed rows) and the state model shared by
//! the render loop, the input reader, and the concurrent fetches. Fetching,
//! key reading and drawing are collaborators that live outside the library.
pub mod coordinator;
pub mod dates;
pub mod extract;
pub mod html;
pub mod rss;
pub mod types;
