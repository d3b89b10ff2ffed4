//! Unused-access analysis for IAM users and roles: the age rule, the
//! finding model, the decisions of the access-advisor job protocol, and the
//! assembly of findings from the signals that the provider reports.
pub mod analyzer;
pub mod args;
pub mod finding;
pub mod job;

pub use analyzer::MetaData;
pub use finding::{duration_gt_age, Finding, FindingDetails, FindingType, ResourceType};
