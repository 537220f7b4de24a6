//! Deciding whether a fetched release should be offered to the user.
//!
//! Fetching the release itself is network work done outside the library; the
//! decision over what came back is made here, from plain values.

use vstd::prelude::*;
use vstd::string::StringExecFns;
use crate::events::UpdateInfo;
use crate::timefmt::{parse_iso8601_to_unix, spec_parse_iso8601};
use crate::version::{is_newer_version, spec_is_newer, strip_v_prefix, strip_vs};

verus! {

/// How long after one update check the next is allowed, in seconds.
pub const RATE_LIMIT_SECS: i64 = 24 * 3600;

/// An update check is due: there is no recorded previous check that parses
/// and lies less than the rate limit before `now`.
pub open spec fn spec_check_due(last_check: Option<Seq<char>>, now: i64) -> bool {
    match last_check {
        Some(ts) => match spec_parse_iso8601(ts) {
            Some(t) => now - t >= RATE_LIMIT_SECS,
            None => true,
        },
        None => true,
    }
}

/// Whether an update check is due at `now`, given the recorded time of the
/// previous check.
pub fn check_due(last_check: Option<&str>, now: i64) -> (r: bool)
    ensures
        r == spec_check_due(
            match last_check {
                Some(s) => Some(s@),
                None => None,
            },
            now,
        ),
{
    match last_check {
        None => true,
        Some(ts) => match parse_iso8601_to_unix(ts) {
            Some(t) => now as i128 - t as i128 >= RATE_LIMIT_SECS as i128,
            None => true,
        },
    }
}

/// What a fetched release says of itself.
#[derive(Debug)]
pub struct ReleaseInfo {
    pub draft: bool,
    pub prerelease: bool,
    pub tag_name: String,
    pub published_at: String,
    pub html_url: String,
    pub body: String,
}

/// A release is offered exactly when it is final (no draft, no pre-release),
/// not the version the user dismissed, strictly newer than the local version,
/// and published at least the cooling period (default seven days) before
/// `now`.
pub open spec fn spec_release_accepted(
    local_version: Seq<char>,
    dismissed_version: Option<Seq<char>>,
    cooling_days: Option<u32>,
    now: i64,
    release: &ReleaseInfo,
) -> bool {
    let remote = strip_vs(release.tag_name@);
    let cooling_secs = (match cooling_days {
        Some(d) => d as int,
        None => 7,
    }) * 24 * 3600;
    &&& !release.draft
    &&& !release.prerelease
    &&& (match dismissed_version {
        Some(d) => strip_vs(d) != remote,
        None => true,
    })
    &&& spec_is_newer(local_version, remote)
    &&& (match spec_parse_iso8601(release.published_at@) {
        Some(p) => now - p >= cooling_secs,
        None => false,
    })
}

/// Decide whether to offer `release`: `Some` exactly when the release is
/// accepted, carrying the remote version (tag without its `v` prefix), the
/// publication time, the release page address and the release notes.
pub fn evaluate_release(
    local_version: &str,
    dismissed_version: Option<&str>,
    cooling_days: Option<u32>,
    now: i64,
    release: &ReleaseInfo,
) -> (r: Option<UpdateInfo>)
    ensures
        r is Some <==> spec_release_accepted(
            local_version@,
            match dismissed_version {
                Some(d) => Some(d@),
                None => None,
            },
            cooling_days,
            now,
            release,
        ),
        r matches Some(u) ==> u.version@ == strip_vs(release.tag_name@) && u.published_at@
            == release.published_at@ && u.html_url@ == release.html_url@ && u.body@
            == release.body@,
{
    if release.draft || release.prerelease {
        return None;
    }
    let remote = strip_v_prefix(release.tag_name.as_str());
    if let Some(d) = dismissed_version {
        let stripped = strip_v_prefix(d);
        if crate::paths::str_eq(stripped.as_str(), remote.as_str()) {
            return None;
        }
    }
    if !is_newer_version(local_version, remote.as_str()) {
        return None;
    }
    let published = match parse_iso8601_to_unix(release.published_at.as_str()) {
        Some(p) => p,
        None => {
            return None;
        },
    };
    let days: u32 = match cooling_days {
        Some(d) => d,
        None => 7,
    };
    let cooling_secs: i128 = days as i128 * 24 * 3600;
    if (now as i128 - published as i128) < cooling_secs {
        return None;
    }
    Some(
        UpdateInfo {
            version: remote,
            published_at: release.published_at.clone(),
            html_url: release.html_url.clone(),
            body: release.body.clone(),
        },
    )
}

} // verus!
