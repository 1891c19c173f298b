//! A client library for the PaperCache wire protocol: request encoding,
//! response decoding, and the decisions a connection makes around them.

pub mod addr;
pub mod arg;
pub mod command;
pub mod error;
pub mod number;
pub mod policy;
pub mod pool;
pub mod response;
pub mod session;
pub mod sheet;
pub mod stats;
pub mod status;
pub mod value;
pub mod wire;

mod text;

pub use crate::addr::FromPaperAddr;
pub use crate::arg::{AsPaperAuthToken, AsPaperKey};
pub use crate::command::Command;
pub use crate::error::{PaperCacheError, PaperClientError, PaperClientResult, PaperServerError};
pub use crate::policy::PaperPolicy;
pub use crate::response::{PaperClientResponse, Reply};
pub use crate::session::{Session, Step, StreamFailure};
pub use crate::stats::Stats;
pub use crate::status::Status;
pub use crate::value::PaperValue;
