//! Verified core of the subtitle overlay: settings normalisation, the subtitle
//! buffer, the server-sent-event decoder and the decisions of the stream loop.
pub mod text;
pub mod model;
pub mod subtitles;
pub mod sse;
pub mod settings;
pub mod fonts;
pub mod json;
pub mod events;
pub mod runtime;
pub mod endpoint;
pub mod overlay;
