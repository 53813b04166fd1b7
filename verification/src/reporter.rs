//! The reporter: the lifecycle events of connections and the record kept of
//! the connections that are open.

pub mod actor;
pub mod address;
pub mod clock;
pub mod event;
pub mod history;
pub mod line;
pub mod state;

pub use actor::{create, ReporterActor, ReporterHandle};
pub use address::Address;
pub use clock::{Elapsed, Timestamp};
pub use event::{Direction, Event, SocketCloseError};
pub use state::{Report, ReportError, ReporterState, ReporterView};
