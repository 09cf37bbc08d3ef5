//! An in-process HTTP mock server's engine: request matching, dispatch,
//! expectations and diagnostics, with their contracts proved by Verus.
use vstd::prelude::*;

pub mod text;
pub mod times;
pub mod headers;
pub mod request;
pub mod response_template;
pub mod matchers;
pub mod verification;
pub mod mock;
pub mod mounted_mock;
pub mod mock_set;
pub mod server_state;
pub mod tls;
pub mod laws;
pub mod startup;

pub use matchers::{IntoMatcher, Match, Matcher};
pub use mock::{Mock, MockBuilder, Reply, Responder};
pub use mock_set::MockId;
pub use request::{BodyPrintLimit, Request};
pub use response_template::ResponseTemplate;
pub use server_state::MockServerState;
pub use times::Times;
pub use tls::MockServerTlsConfig;

verus! {

} // verus!
