//! The site's name and address.

use vstd::prelude::*;

verus! {

/// The name the site goes by in page titles and link previews.
pub const SITE_NAME: &'static str = "Census Consensus";

/// The site's public address, without a trailing slash.
pub const SITE_LINK: &'static str = "https://census.silkrose.dev";

} // verus!
