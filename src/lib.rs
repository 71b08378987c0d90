//! Helpers for querying an Active Directory over LDAP: decoding of SIDs,
//! FILETIME timestamps and account flags read from directory entries, the
//! bulk search filter, and the decisions of directory server discovery.
pub mod text;
pub mod sid;
pub mod filter;
pub mod filetime;
pub mod entry;
pub mod discovery;

pub use discovery::{connection_order, decide, server_url, AttemptOutcome, ConnectError, Decision};
pub use entry::{AttributeHelper, Entry};
pub use filetime::filetime_to_unix_secs;
pub use filter::generate_bulk_filter;
pub use sid::{obj_sid_to_string, SidError};
