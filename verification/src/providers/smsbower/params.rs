//! Query-parameter names of the SMSBower-specific `getNumber` / `getNumberV2` filters.

use vstd::prelude::*;

verus! {

/// Comma-separated upstream partner ids to buy from (`1,2,3`).
pub const PROVIDER_IDS: &'static str = "providerIds";

/// Comma-separated upstream partner ids to exclude.
pub const EXCEPT_PROVIDER_IDS: &'static str = "exceptProviderIds";

/// Comma-separated number prefixes to exclude: country code + 3–6 mask digits (`7918,7900111`).
pub const PHONE_EXCEPTION: &'static str = "phoneException";

/// Referral id.
pub const REF: &'static str = "ref";

/// Reseller sub-user id (contact support).
pub const USER_ID: &'static str = "userID";

} // verus!
