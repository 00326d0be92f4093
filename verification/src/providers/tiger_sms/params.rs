//! Query-parameter names of the Tiger-SMS-specific options.

use vstd::prelude::*;

verus! {

/// `1`/`0` — require a number that can receive several SMS.
pub const MULTIPLE: &'static str = "multiple";

/// Comma-separated public provider ids to buy from (see `getPricesV3` / `getProviders`).
pub const PROVIDER_IDS: &'static str = "providerIds";

/// Comma-separated public provider ids to exclude.
pub const EXCEPT_PROVIDER_IDS: &'static str = "exceptProviderIds";

/// Referral id.
pub const REF: &'static str = "ref";

/// `SMS` (default), `CALL_FLASH`, `CALL_VOICE`, `CALL_INTERACTIVE`, `RENT_SMS`.
pub const ACTIVATION_TYPE: &'static str = "activationType";

/// Literal `true`/`false`; requires `maxPrice`.
pub const FIXED_PRICE: &'static str = "fixedPrice";

/// `getStatus` — return the full SMS text instead of the bare code.
pub const FULL_TEXT: &'static str = "full_text";

/// `getBalance&format=json`.
pub const FORMAT: &'static str = "format";

} // verus!
