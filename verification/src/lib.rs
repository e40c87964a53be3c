//! Verified core of a cross-posting tool: the rich-link pipeline that turns
//! a message into byte-exact link facets and an external-link embed.
//!
//! The modules follow the pipeline's stages. [`links`] finds the `http(s)`
//! hyperlinks in the message text and records the byte range each occupies
//! in its UTF-8 encoding; [`preview`] extracts title, description and image
//! from the first link's page under a first-match-wins priority; [`thumb`]
//! resolves the preview's image URL and judges whether the fetched image may
//! become the embed's thumbnail; [`facets`] and [`embed`] build the
//! wire-level annotations from all of it. [`text`], [`ascii`] and [`http`]
//! hold the character-, byte- and response-level rules those stages share.
//!
//! Network traffic stays outside: the library takes plain values a caller
//! fetched (status, content-type, body bytes) and returns plain values to
//! submit, so every decision in between is specified and proved.

pub mod ascii;
pub mod embed;
pub mod facets;
pub mod http;
pub mod links;
pub mod preview;
pub mod text;
pub mod thumb;
