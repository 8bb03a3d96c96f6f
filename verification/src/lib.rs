//! Extraction of normalized bibliographic metadata (title, site name,
//! authors, description, thumbnail, body text) from an HTML document,
//! through a priority-ordered fallback search across the common metadata
//! standards (document title, OpenGraph, Twitter Cards, JSON-LD, Microdata,
//! RDFa, microformats2, Dublin Core, web-app manifests, oEmbed).

pub mod authors;
pub mod doc;
pub mod entry;
pub mod json;
pub mod jsonld;
pub mod pick;
pub mod resolve;
pub mod strops;
pub mod tag;
pub mod template;
pub mod text;
pub mod urls;
