//! Extraction of video records from a search-results page.
//!
//! The page text is scanned for three patterns (identifier, thumbnail URL,
//! title); the matches are aligned by position into candidate records, the
//! first record for each identifier is kept, and each kept record is filed
//! as a regular video or as a short by a rule on its title.
pub mod record;
pub mod classify;
pub mod pipeline;
pub mod extract;
pub mod laws;
