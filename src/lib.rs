//! Enrichment of a vocabulary list: each word is translated, and each
//! translation may get synthesized speech, through one outside call per item.
//! The library plans a batch of such calls and decides, for each outcome as
//! it arrives, what is persisted and what is reported; the caller runs the
//! calls and the store.

pub mod headword;
pub mod model;
pub mod batch;
pub mod laws;
