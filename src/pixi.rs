//! Package records as `pixi` lists them.

use vstd::prelude::*;

verus! {

/// The ecosystem that a package comes from.
#[derive(Debug, Clone, Copy, PartialEq, Eq, Hash, Structural)]
pub enum PackageKind {
    Conda,
    Pypi,
}

/// One installed package of one platform.
#[derive(Debug, Clone)]
pub struct PixiPackage {
    pub name: String,
    pub version: String,
    pub build: Option<String>,
    pub size_bytes: Option<u64>,
    pub kind: PackageKind,
    pub source: Option<String>,
    pub is_explicit: bool,
}

/// What `regex::escape` makes of a text: the text with every regex meta
/// character escaped, so that it matches itself literally.
pub uninterp spec fn regex_escaped(s: Seq<char>) -> Seq<char>;

/// Relies on `regex::escape`, whose result depends on the text alone.
#[verifier::external_body]
fn escape_name(name: &str) -> (r: String)
    ensures
        r@ == regex_escaped(name@),
{
    regex::escape(name)
}

/// The escaped names joined by `|`.
pub open spec fn escaped_alternatives(names: Seq<String>) -> Seq<char>
    decreases names.len(),
{
    if names.len() == 0 {
        Seq::empty()
    } else if names.len() == 1 {
        regex_escaped(names[0]@)
    } else {
        escaped_alternatives(names.drop_last()) + "|"@ + regex_escaped(names.last()@)
    }
}

/// The pattern that selects exactly the given package names: `^name$` for
/// one name, `^(a|b|...)$` for several.
pub open spec fn names_pattern(names: Seq<String>) -> Seq<char> {
    if names.len() == 1 {
        "^"@ + regex_escaped(names[0]@) + "$"@
    } else {
        "^("@ + escaped_alternatives(names) + ")$"@
    }
}

/// Builds the regular expression that matches the given package names and
/// nothing else, each name escaped.
pub fn package_names_pattern(package_names: &Vec<String>) -> (r: String)
    requires
        package_names.len() > 0,
    ensures
        r@ == names_pattern(package_names@),
{
    if package_names.len() == 1 {
        let mut p = String::from_str("^");
        let escaped = escape_name(package_names[0].as_str());
        p.append(escaped.as_str());
        p.append("$");
        return p;
    }
    let mut joined = escape_name(package_names[0].as_str());
    let mut i: usize = 1;
    while i < package_names.len()
        invariant
            1 <= i <= package_names.len(),
            joined@ == escaped_alternatives(package_names@.take(i as int)),
        decreases package_names.len() - i,
    {
        proof {
            assert(package_names@.take(i + 1).drop_last() =~= package_names@.take(i as int));
            if i == 1 {
                assert(package_names@.take(1)[0] == package_names@[0]);
            }
        }
        let escaped = escape_name(package_names[i].as_str());
        joined.append("|");
        joined.append(escaped.as_str());
        i += 1;
    }
    assert(package_names@.take(i as int) =~= package_names@);
    let mut p = String::from_str("^(");
    p.append(joined.as_str());
    p.append(")$");
    p
}

/// An option and its value, where a value is given.
pub open spec fn option_args(flag: Seq<char>, value: Option<&str>) -> Seq<Seq<char>> {
    match value {
        Some(v) => seq![flag, v@],
        None => Seq::empty(),
    }
}

/// The arguments of `pixi list` for the given filters.
pub open spec fn list_args_of(
    explicit: bool,
    environment: Option<&str>,
    platform: Option<&str>,
    manifest: Option<&str>,
    package_names: Seq<String>,
) -> Seq<Seq<char>> {
    seq!["list"@, "--json"@] + (if explicit {
        seq!["--explicit"@]
    } else {
        Seq::empty()
    }) + option_args("--environment"@, environment) + option_args("--platform"@, platform)
        + option_args("--manifest-path"@, manifest) + (if package_names.len() > 0 {
        seq![names_pattern(package_names)]
    } else {
        Seq::empty()
    })
}

fn push_option(args: &mut Vec<String>, flag: &str, value: Option<&str>)
    ensures
        final(args)@.map_values(|a: String| a@) == old(args)@.map_values(|a: String| a@)
            + option_args(flag@, value),
{
    if let Some(v) = value {
        let ghost before = args@;
        args.push(String::from_str(flag));
        args.push(String::from_str(v));
        assert(args@.map_values(|a: String| a@) =~= before.map_values(|a: String| a@) + seq![
            flag@,
            v@,
        ]);
    } else {
        assert(args@.map_values(|a: String| a@) =~= args@.map_values(|a: String| a@)
            + Seq::<Seq<char>>::empty());
    }
}

/// The arguments with which `pixi list` reports, as JSON, the packages of an
/// environment and platform: all of them, only the explicit ones, or only
/// those of the given names.
pub fn package_list_args(
    explicit: bool,
    environment: Option<&str>,
    platform: Option<&str>,
    manifest: Option<&str>,
    package_names: &Vec<String>,
) -> (r: Vec<String>)
    ensures
        r@.map_values(|a: String| a@) == list_args_of(
            explicit,
            environment,
            platform,
            manifest,
            package_names@,
        ),
{
    let mut args: Vec<String> = Vec::new();
    args.push(String::from_str("list"));
    args.push(String::from_str("--json"));
    let ghost base = args@.map_values(|a: String| a@);
    assert(base =~= seq!["list"@, "--json"@]);
    if explicit {
        args.push(String::from_str("--explicit"));
    }
    assert(args@.map_values(|a: String| a@) =~= base + (if explicit {
        seq!["--explicit"@]
    } else {
        Seq::empty()
    }));
    push_option(&mut args, "--environment", environment);
    push_option(&mut args, "--platform", platform);
    push_option(&mut args, "--manifest-path", manifest);
    let ghost before = args@.map_values(|a: String| a@);
    if package_names.len() > 0 {
        let pattern = package_names_pattern(package_names);
        args.push(pattern);
        assert(args@.map_values(|a: String| a@) =~= before + seq![names_pattern(package_names@)]);
    } else {
        assert(args@.map_values(|a: String| a@) =~= before + Seq::<Seq<char>>::empty());
    }
    args
}

} // verus!
