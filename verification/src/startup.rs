//! The server's start-up decisions, from the environment's values: where the
//! database lives, whether demo data is seeded, and how requests are
//! rate-limited.
use vstd::prelude::*;

use crate::text::{is_blank, str_eq, trim};

verus! {

/// Whether demo data is seeded: only when `DX_SEED` is exactly `1`.
pub fn seed_enabled(dx_seed: Option<&str>) -> (b: bool)
    ensures
        b == (dx_seed matches Some(v) && v@ == "1"@),
{
    match dx_seed {
        Some(v) => str_eq(v, "1"),
        None => false,
    }
}

/// The database URL to connect to: `DATABASE_URL` when set and not blank,
/// else `None` for the bundled SQLite file.
pub fn database_url(var: Option<&str>) -> (r: Option<&str>)
    ensures
        match r {
            Some(u) => var == Some(u) && trim(u@).len() > 0,
            None => !(var matches Some(v) && trim(v@).len() > 0),
        },
{
    match var {
        Some(u) => if is_blank(u) {
            None
        } else {
            Some(u)
        },
        None => None,
    }
}

/// A token-bucket rate limit.
#[derive(Clone, Copy, PartialEq, Eq, Debug)]
pub struct RateLimit {
    pub burst: u32,
    pub per_second: u32,
}

/// The rate limit from `DX_RATE_LIMIT` and the build: none when it is `off`,
/// generous in debug builds, strict in release builds.
pub fn rate_limit(setting: Option<&str>, debug: bool) -> (r: Option<RateLimit>)
    ensures
        (setting matches Some(s) && s@ == "off"@) ==> r is None,
        !(setting matches Some(s) && s@ == "off"@) && debug ==> r == Some(RateLimit { burst: 4096, per_second: 256 }),
        !(setting matches Some(s) && s@ == "off"@) && !debug ==> r == Some(RateLimit { burst: 128, per_second: 16 }),
{
    let off = match setting {
        Some(s) => str_eq(s, "off"),
        None => false,
    };
    if off {
        None
    } else if debug {
        Some(RateLimit { burst: 4096, per_second: 256 })
    } else {
        Some(RateLimit { burst: 128, per_second: 16 })
    }
}

} // verus!
