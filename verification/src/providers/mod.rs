//! Provider dialects and provider-only actions.

pub mod fivesim;
pub mod hero_sms;
pub mod smsbower;
pub mod tiger_sms;
