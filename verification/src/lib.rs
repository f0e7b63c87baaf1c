//! The core of an image-transformation proxy, and a few small text and data
//! utilities, each with its contract.
//!
//! The proxy answers a request for a source URL and a transformation spec
//! with the transformed image:
//!
//! - [`key`] derives the cache key of a source URL;
//! - [`cache`] is the bounded least-recently-used store of fetched bytes;
//! - [`fetch`] decides where a source is retrieved from and what counts as a
//!   failure;
//! - [`transform`] holds the steps that a request asks for;
//! - [`handler`] takes a request from step to step, between the decoder, the
//!   cache, the fetch and the image engine;
//! - [`percent`] is the percent-encoding of URLs.
//!
//! The utilities are [`text`], [`slices`], [`minigrep`], [`sentence`], [`parse`],
//! [`ministring`], [`list`], [`formatter`] and [`animal`].

pub mod animal;
pub mod cache;
pub mod fetch;
pub mod formatter;
pub mod handler;
pub mod key;
pub mod list;
pub mod minigrep;
pub mod ministring;
pub mod parse;
pub mod percent;
pub mod sentence;
pub mod slices;
pub mod text;
pub mod transform;
