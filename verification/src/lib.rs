//! Client library for the sms-activate API family: the `handler_api.php?action=…` protocol that
//! most virtual-number providers speak, its per-provider dialects, and the 5SIM REST API.
//!
//! Everything that decides (response classification, token and JSON parsing, URL building,
//! retry policy, request options) is verified here; the HTTP stack, JSON decoding of raw text,
//! floating-point conversions and the provider trait objects live in the application crate.

pub mod text;
pub mod num;
pub mod amount;
pub mod keymap;
pub mod types;
pub mod transport;
pub mod error;
pub mod json;
pub mod sorting;
pub mod protocol;
pub mod api;
pub mod providers;
pub mod laws;
pub mod provider_laws;
pub mod reading_laws;
