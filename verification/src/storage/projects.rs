//! Projects as they are stored.

use vstd::prelude::*;
use crate::model::Platform;

verus! {

/// A stored project. Times are RFC 3339 timestamps.
#[derive(Debug, Clone, PartialEq, Eq)]
pub struct Project {
    pub id: u128,
    pub name: String,
    pub platform: Platform,
    pub archived_at: Option<String>,
    pub created_at: String,
    pub updated_at: String,
}

/// The name a platform is stored under.
pub open spec fn platform_name(p: Platform) -> Seq<char> {
    match p {
        Platform::Web => "web"@,
        Platform::Desktop => "desktop"@,
        Platform::Mobile => "mobile"@,
        Platform::CrossPlatform => "cross_platform"@,
    }
}

pub fn platform_to_str(platform: Platform) -> (s: &'static str)
    ensures
        s@ == platform_name(platform),
{
    match platform {
        Platform::Web => "web",
        Platform::Desktop => "desktop",
        Platform::Mobile => "mobile",
        Platform::CrossPlatform => "cross_platform",
    }
}

/// The platform stored under a name; `None` for a name no platform has.
pub fn platform_from_str(value: &str) -> (r: Option<Platform>)
    ensures
        match r {
            Some(p) => platform_name(p) == value@,
            None => forall|p: Platform| platform_name(p) != value@,
        },
{
    let v = value.to_owned();
    if v == "web".to_owned() {
        Some(Platform::Web)
    } else if v == "desktop".to_owned() {
        Some(Platform::Desktop)
    } else if v == "mobile".to_owned() {
        Some(Platform::Mobile)
    } else if v == "cross_platform".to_owned() {
        Some(Platform::CrossPlatform)
    } else {
        None
    }
}

/// Distinct platforms are stored under distinct names, so a stored
/// platform reads back as itself.
pub proof fn law_platform_names_distinct(a: Platform, b: Platform)
    ensures
        platform_name(a) == platform_name(b) ==> a == b,
{
    reveal_strlit("web");
    reveal_strlit("desktop");
    reveal_strlit("mobile");
    reveal_strlit("cross_platform");
    if platform_name(a) == platform_name(b) && a != b {
        assert(platform_name(a).len() != platform_name(b).len() || platform_name(a)[0]
            != platform_name(b)[0]);
    }
}

} // verus!
