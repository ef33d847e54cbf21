//! A verified codec for a recorded-HTTP-interaction archive: an ordered
//! collection of request/response pairs plus metadata, read from and written
//! to an abstract structured-document model.
//!
//! The core of the library is the [`Body`] value — an HTTP body that can take
//! one of four wire shapes — together with its decode/encode logic and the
//! asymmetric equivalence relation used to decide whether a recorded body
//! matches an observed one during playback lookup.

pub mod body;
pub mod doc;
pub mod envelope;
pub mod errors;
pub mod matcher;

pub use envelope::headers_from_doc;
pub use envelope::headers_to_doc;
pub use envelope::Cassette;
pub use envelope::CassetteView;
pub use envelope::Headers;
pub use envelope::HeadersView;
pub use envelope::HttpInteraction;
pub use envelope::InteractionView;
pub use envelope::Method;
pub use envelope::MethodView;
pub use envelope::RecorderId;
pub use envelope::Request;
pub use envelope::RequestView;
pub use envelope::Response;
pub use envelope::ResponseView;
pub use envelope::Status;
pub use envelope::StatusView;
pub use envelope::Timestamp;
pub use envelope::Uri;
pub use envelope::Version;

pub use body::Body;
pub use body::BodyView;
pub use body::Capabilities;

pub use doc::DocValue;
pub use doc::DocView;
pub use errors::DecodeError;
pub use errors::ErrView;
pub use matcher::BodyMatcher;
pub use matcher::CheckedRegex;
pub use matcher::MatcherView;
