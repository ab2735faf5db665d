//! The conda channel that a package was downloaded from.

use vstd::prelude::*;

verus! {

/// What `url::Url::parse` reads from `s`: the scheme, the host and the first
/// path segment of the URL, or `None` where `s` holds no absolute URL.
pub uninterp spec fn parsed_url(s: Seq<char>) -> Option<(Seq<char>, Option<Seq<char>>, Option<Seq<char>>)>;

/// The view of an optional string.
pub open spec fn opt_view(o: Option<String>) -> Option<Seq<char>> {
    match o {
        Some(s) => Some(s@),
        None => None,
    }
}

/// The parts of a parsed URL that a channel is built from.
struct UrlParts {
    scheme: String,
    host: Option<String>,
    first_segment: Option<String>,
}

/// Relies on `url::Url::parse`, and on `Url::scheme`, `Url::host_str` and the
/// first item of `Url::path_segments` of the URL that it returns.
#[verifier::external_body]
fn parse_url(source: &str) -> (r: Option<UrlParts>)
    ensures
        r is None <==> parsed_url(source@) is None,
        r matches Some(p) ==> parsed_url(source@) == Some(
            (p.scheme@, opt_view(p.host), opt_view(p.first_segment)),
        ),
{
    match url::Url::parse(source) {
        Ok(u) => Some(UrlParts {
            scheme: u.scheme().to_string(),
            host: u.host_str().map(|h| h.to_string()),
            first_segment: u.path_segments().and_then(|mut p| p.next()).map(|p| p.to_string()),
        }),
        Err(_) => None,
    }
}

/// The channel of a package source: `scheme://host/first-segment`, where the
/// source is a URL with a host and a path.
pub open spec fn channel_url_of(source: Seq<char>) -> Option<Seq<char>> {
    match parsed_url(source) {
        Some((scheme, Some(host), Some(segment))) => Some(
            scheme + seq![':', '/', '/'] + host + seq!['/'] + segment,
        ),
        _ => None,
    }
}

/// Extracts the channel URL (scheme, host and first path segment) from the
/// download URL of a conda package; `None` where the source is no such URL.
pub fn extract_channel_url(source: &str) -> (r: Option<String>)
    ensures
        opt_view(r) == channel_url_of(source@),
{
    match parse_url(source) {
        None => None,
        Some(parts) => match (parts.host, parts.first_segment) {
            (Some(host), Some(segment)) => {
                let mut channel = parts.scheme;
                channel.append("://");
                channel.append(host.as_str());
                channel.append("/");
                channel.append(segment.as_str());
                proof {
                    reveal_strlit("://");
                    reveal_strlit("/");
                }
                Some(channel)
            },
            _ => None,
        },
    }
}

/// Whether conda orders version `a` above version `b`.
pub uninterp spec fn conda_newer(a: Seq<char>, b: Seq<char>) -> bool;

/// Relies on `rattler_conda_types::Version`: its `FromStr` parse of both
/// texts and its `Ord` (epoch, then segments, then local segments). A text
/// that does not parse is never newer.
#[verifier::external_body]
fn version_newer(a: &str, b: &str) -> (r: bool)
    ensures
        r == conda_newer(a@, b@),
{
    match (a.parse::<rattler_conda_types::Version>(), b.parse::<rattler_conda_types::Version>()) {
        (Ok(x), Ok(y)) => x > y,
        _ => false,
    }
}

/// The newest of a sequence of versions: the first one that no later one
/// orders above, by a scan that keeps the current newest unless a version
/// is newer than it.
pub open spec fn newest_of(s: Seq<Seq<char>>) -> Option<Seq<char>>
    decreases s.len(),
{
    if s.len() == 0 {
        None
    } else {
        match newest_of(s.drop_last()) {
            None => Some(s.last()),
            Some(current) => if conda_newer(s.last(), current) {
                Some(s.last())
            } else {
                Some(current)
            },
        }
    }
}

/// Picks the newest of the versions of a package that a channel offers on
/// the queried platforms; `None` where it offers none.
pub fn newest_version(versions: &Vec<String>) -> (r: Option<String>)
    ensures
        opt_view(r) == newest_of(versions@.map_values(|v: String| v@)),
{
    let ghost all = versions@.map_values(|v: String| v@);
    let mut newest: Option<String> = None;
    let mut i: usize = 0;
    while i < versions.len()
        invariant
            0 <= i <= versions.len(),
            all == versions@.map_values(|v: String| v@),
            opt_view(newest) == newest_of(all.take(i as int)),
        decreases versions.len() - i,
    {
        proof {
            assert(all.take(i + 1).drop_last() =~= all.take(i as int));
            assert(all.take(i + 1).last() == versions@[i as int]@);
        }
        let candidate = &versions[i];
        newest = match newest {
            None => Some(candidate.clone()),
            Some(current) => if version_newer(candidate.as_str(), current.as_str()) {
                Some(candidate.clone())
            } else {
                Some(current)
            },
        };
        i += 1;
    }
    assert(all.take(i as int) =~= all);
    newest
}

/// The subdirectories of a channel that a version query reads: `noarch`,
/// then each checked platform in order.
pub fn query_subdirs(platforms: &Vec<String>) -> (r: Vec<String>)
    ensures
        r@.map_values(|p: String| p@) == seq!["noarch"@] + platforms@.map_values(|p: String| p@),
{
    let mut subdirs: Vec<String> = Vec::new();
    subdirs.push(String::from_str("noarch"));
    let mut i: usize = 0;
    while i < platforms.len()
        invariant
            0 <= i <= platforms.len(),
            subdirs@.map_values(|p: String| p@) == seq!["noarch"@] + platforms@.take(
                i as int,
            ).map_values(|p: String| p@),
        decreases platforms.len() - i,
    {
        let ghost before = subdirs@;
        subdirs.push(platforms[i].clone());
        proof {
            assert(subdirs@ =~= before.push(platforms@[i as int]));
            assert(platforms@.take(i + 1) =~= platforms@.take(i as int).push(platforms@[i as int]));
            let f = |p: String| p@;
            assert(subdirs@.map_values(f) =~= before.map_values(f).push(platforms@[i as int]@));
            assert(platforms@.take(i + 1).map_values(f) =~= platforms@.take(i as int).map_values(
                f,
            ).push(platforms@[i as int]@));
        }
        assert(subdirs@.map_values(|p: String| p@) =~= seq!["noarch"@] + platforms@.take(
            i + 1,
        ).map_values(|p: String| p@));
        i += 1;
    }
    assert(platforms@.take(i as int) =~= platforms@);
    subdirs
}

} // verus!
