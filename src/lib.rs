//! Per-process network traffic accounting: decoding of the probe records,
//! aggregation into a process/link table, snapshots for the store, and the
//! small state machines that the viewers use.

pub mod addr;
pub mod date;
pub mod display;
pub mod enrich;
pub mod iperf;
pub mod net;
pub mod record;
pub mod store;
pub mod table;
pub mod ui;
pub mod util;
