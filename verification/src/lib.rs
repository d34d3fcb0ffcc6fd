//! The rules of a wallpaper and colour-scheme service, verified.
//!
//! The service renders an image for each display, extracts a palette of
//! sixteen colours from it, and writes the palette into configuration
//! files through templates. This crate holds what the service decides and
//! computes: the keys and paths of its caches ([`fingerprint`]), the
//! palette from the colours that clustering finds ([`palette`]), the plan
//! of a rendering ([`wallpaper`], [`display`], [`image_ops`]), templates
//! ([`template_parser`], [`inclusion`], [`template`]), the configuration
//! and what a request puts over it ([`config`], [`config_file`], [`json`],
//! [`request`]), the handling of a request ([`handler`]) and the
//! supervisor's reactions ([`supervisor`]). Files, sockets, processes,
//! images and floating point stay with the caller.
//!
//! Text is modelled as `Seq<char>` ([`text`], [`number`], [`paths`]);
//! settings with a fractional part are exact decimal text ([`decimal`]).
//! Each function states what it returns over these models, and the modules
//! [`fingerprint_laws`] and [`template_laws`] prove what holds between
//! them.

pub mod colors;
pub mod config;
pub mod config_file;
pub mod decimal;
pub mod display;
pub mod fingerprint;
pub mod fingerprint_laws;
pub mod handler;
pub mod image_ops;
pub mod inclusion;
pub mod json;
pub mod number;
pub mod palette;
pub mod paths;
pub mod request;
pub mod rwal_params;
pub mod supervisor;
pub mod template;
pub mod template_laws;
pub mod template_parser;
pub mod text;
pub mod wallpaper;
