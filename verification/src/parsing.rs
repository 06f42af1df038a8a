//! Reading what responders send: the reply to a search, the description of a
//! device, and the description of a service.

pub mod device;
pub mod device_proofs;
pub mod location;
pub mod location_proofs;
pub mod scpd;
pub mod scpd_proofs;

pub use self::device::{find_control_urls, parse_control_urls};
pub use self::location::parse_search_result;
pub use self::scpd::{collect_schema, parse_schemas};
