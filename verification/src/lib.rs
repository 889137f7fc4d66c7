//! Verified core of an intrusion-response daemon that watches an
//! authentication log and escalates brute-force sources into a firewall
//! block-list.
//!
//! - `buf`: the line buffer that reassembles raw reads into
//!   newline-delimited text lines, keeping partial lines across reads.
//! - `tail`: the log-follower state machine that survives file truncation,
//!   rotation and deletion, deciding on each kernel event as a pure
//!   function of state; the caller performs the reads and reopens.
//! - `cms`: the count-min sketch, a frequency estimator that provably
//!   never undercounts.
//! - `window`: the time-windowed estimator, a rolling sequence of sketches
//!   rotated as time advances.
//! - `gate`: the detection rule that turns a windowed count into an
//!   escalation decision.
//! - `stamp`: timestamp extraction from a log line, with verified year
//!   inference.
//! - `matcher`: address extraction from recognized log-line patterns.
//! - `pf`: the firewall-table value model: addresses, their packed wire
//!   records, and bounded table names.

pub mod buf;
pub mod cms;
pub mod gate;
pub mod matcher;
pub mod pf;
pub mod stamp;
pub mod tail;
pub mod window;
