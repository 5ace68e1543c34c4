//! Verified codec for RMCP, ASF and IPMI 1.5 session messages.
pub mod ipmi;
