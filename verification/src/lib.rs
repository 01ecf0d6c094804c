//! TCP as per https://www.ietf.org/rfc/rfc793.txt

pub mod connection;
pub mod event;
pub mod listen;
pub mod mock;
pub mod options;
pub mod printing;
pub mod queue;
pub mod result;
pub mod rtt;
pub mod rx;
pub mod segment;
pub mod socket;
pub mod state;
pub mod suspended;
pub mod time;
pub mod timers;
pub mod tx;
pub mod user_data;

pub use connection::{Connection, Protocol};
pub use event::Cookie;
pub use listen::ListenSocket;
pub use options::SocketOptions;
pub use result::Error;
pub use rtt::Timings;
pub use segment::{SegmentFlags, SegmentMeta, SeqN};
pub use socket::{response_to_closed, Socket};
pub use state::ConnectionState;
pub use time::Duration;
pub use user_data::{UserData, UserTime};
