//! A dead man's switch: a vault whose funds are shared out among whitelisted
//! beneficiaries once its owner stops sending heartbeats, with multi-signature
//! emergency access and a bounded audit trail.

pub mod strmap;
pub mod text;
pub mod rounding;
pub mod clock;
pub mod types;
pub mod model;
pub mod switch;
pub mod laws;
pub mod guarantees;

pub use clock::{current_timestamp, generate_id};
pub use strmap::{StrMap, StrSet};
pub use switch::DeadmanSwitch;
pub use types::{ActivityType, AuditEntry, Beneficiary, EmergencyAccessRequest, StatusReport};
