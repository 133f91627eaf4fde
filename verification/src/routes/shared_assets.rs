//! Shared assets: avatars, animations and screensavers users publish for each other.
use vstd::prelude::*;
use crate::text::str_eq;

verus! {

broadcast use vstd::string::group_string_axioms;

pub struct ListQuery {
    pub device_id: Option<String>,
    pub asset_type: Option<String>,
    pub search: Option<String>,
    pub sort: Option<String>,
}

pub struct InstallRequest {
    pub device_id: Option<String>,
}

pub struct RateRequest {
    pub device_id: Option<String>,
    pub stars: i32,
}

/// The SQL ordering of an asset listing: by downloads, by average rating, verified first, or
/// newest first (the default).
pub open spec fn asset_order_spec(sort: Option<Seq<char>>) -> Seq<char> {
    if sort == Some("popular"@) {
        "a.downloads DESC"@
    } else if sort == Some("rating"@) {
        "(CASE WHEN a.rating_count = 0 THEN 0 ELSE CAST(a.rating_sum AS REAL) / a.rating_count END) DESC"@
    } else if sort == Some("verified"@) {
        "verified DESC, a.created_at DESC"@
    } else {
        "a.created_at DESC"@
    }
}

/// The ordering clause of an asset listing.
pub fn asset_order(sort: Option<&str>) -> (r: &'static str)
    ensures
        r@ == asset_order_spec(
            match sort {
                Some(s) => Some(s@),
                None => None,
            },
        ),
{
    match sort {
        Some(s) => {
            if str_eq(s, "popular") {
                "a.downloads DESC"
            } else if str_eq(s, "rating") {
                "(CASE WHEN a.rating_count = 0 THEN 0 ELSE CAST(a.rating_sum AS REAL) / a.rating_count END) DESC"
            } else if str_eq(s, "verified") {
                "verified DESC, a.created_at DESC"
            } else {
                "a.created_at DESC"
            }
        },
        None => "a.created_at DESC",
    }
}

/// The kinds of asset that can be published.
pub open spec fn is_asset_type(t: Seq<char>) -> bool {
    t == "avatar"@ || t == "animation"@ || t == "screensaver"@
}

/// Checks the kind of a published asset.
pub fn check_asset_type(asset_type: &str) -> (r: Result<(), String>)
    ensures
        r is Ok <==> is_asset_type(asset_type@),
        r matches Err(m) ==> m@ == "asset_type must be one of: avatar, animation, screensaver"@,
{
    if str_eq(asset_type, "avatar") || str_eq(asset_type, "animation") || str_eq(asset_type, "screensaver") {
        Ok(())
    } else {
        Err("asset_type must be one of: avatar, animation, screensaver".to_string())
    }
}

} // verus!
