//! Finding updates: one version lookup per distinct dependency, a diff per
//! platform against the looked-up versions, and the split of all updates into
//! those common to every platform and those specific to one.

use vstd::prelude::*;

use crate::conda::{channel_url_of, extract_channel_url, opt_view};
use crate::pixi::{PackageKind, PixiPackage};

verus! {

// ---------------------------------------------------------------------------
// Identity of a dependency

/// What identifies a dependency across platforms: its name, the channel it
/// comes from and its ecosystem.
pub type KeyView = (Seq<char>, Option<Seq<char>>, PackageKind);

/// The identity under which a dependency is looked up once for all platforms.
#[derive(Debug, Clone, Eq, Hash)]
pub struct PackageKey {
    pub name: String,
    pub channel: Option<String>,
    pub kind: PackageKind,
}

impl View for PackageKey {
    type V = KeyView;

    open spec fn view(&self) -> KeyView {
        (self.name@, opt_view(self.channel), self.kind)
    }
}

fn same_text(a: &Option<String>, b: &Option<String>) -> (r: bool)
    ensures
        r == (opt_view(*a) == opt_view(*b)),
{
    match (a, b) {
        (Some(x), Some(y)) => *x == *y,
        (None, None) => true,
        _ => false,
    }
}

impl PartialEq for PackageKey {
    fn eq(&self, other: &PackageKey) -> bool {
        self.name == other.name && same_text(&self.channel, &other.channel) && self.kind
            == other.kind
    }
}

impl vstd::std_specs::cmp::PartialEqSpecImpl for PackageKey {
    open spec fn obeys_eq_spec() -> bool {
        true
    }

    open spec fn eq_spec(&self, other: &PackageKey) -> bool {
        self@ == other@
    }
}

/// The channel of a package's download source, if one can be read from it.
pub open spec fn channel_of_source(source: Option<String>) -> Option<Seq<char>> {
    match source {
        Some(s) => channel_url_of(s@),
        None => None,
    }
}

/// The identity of a package record.
pub open spec fn key_of(p: PixiPackage) -> KeyView {
    (p.name@, channel_of_source(p.source), p.kind)
}

/// Computes the identity of a package record. Records that agree in name,
/// channel and ecosystem get equal keys, whatever platform they come from.
pub fn package_key(package: &PixiPackage) -> (k: PackageKey)
    ensures
        k@ == key_of(*package),
{
    let channel = match &package.source {
        Some(s) => extract_channel_url(s.as_str()),
        None => None,
    };
    PackageKey { name: package.name.clone(), channel, kind: package.kind }
}

/// Whether a lookup is made for a dependency: always for PyPI, and for conda
/// only where its channel is known.
pub open spec fn needs_lookup(k: KeyView) -> bool {
    k.2 == PackageKind::Pypi || k.1 is Some
}

// ---------------------------------------------------------------------------
// Records

/// The packages installed on one platform.
#[derive(Debug, Clone)]
pub struct PlatformPackages {
    pub platform: String,
    pub packages: Vec<PixiPackage>,
}

/// A newer version of an installed package.
pub type UpdateView = (Seq<char>, Seq<char>, Seq<char>);

/// A package whose latest version differs from the installed one.
#[derive(Debug, Clone, PartialEq, Eq)]
pub struct PackageUpdate {
    pub name: String,
    pub installed_version: String,
    pub latest_version: String,
}

impl View for PackageUpdate {
    type V = UpdateView;

    open spec fn view(&self) -> UpdateView {
        (self.name@, self.installed_version@, self.latest_version@)
    }
}

impl PackageUpdate {
    /// A copy of the update, field by field.
    pub fn duplicate(&self) -> (r: PackageUpdate)
        ensures
            r@ == self@,
    {
        PackageUpdate {
            name: self.name.clone(),
            installed_version: self.installed_version.clone(),
            latest_version: self.latest_version.clone(),
        }
    }

    /// Whether two updates name the same package, installed version and
    /// latest version.
    pub fn same_as(&self, other: &PackageUpdate) -> (r: bool)
        ensures
            r == (self@ == other@),
    {
        self.name == other.name && self.installed_version == other.installed_version
            && self.latest_version == other.latest_version
    }
}

// ---------------------------------------------------------------------------
// Unique-query planner

/// All package records of all platforms, platform after platform.
pub open spec fn all_packages(pps: Seq<PlatformPackages>) -> Seq<PixiPackage>
    decreases pps.len(),
{
    if pps.len() == 0 {
        Seq::empty()
    } else {
        all_packages(pps.drop_last()) + pps.last().packages@
    }
}

/// Whether an identity has an entry in a plan.
pub open spec fn plan_has(plan: Seq<(KeyView, Seq<char>)>, k: KeyView) -> bool {
    exists|i: int| 0 <= i < plan.len() && (#[trigger] plan[i]).0 == k
}

/// The plan for a sequence of records: each identity once, in the order of
/// first sight, with the installed version seen first.
pub open spec fn plan_of(s: Seq<PixiPackage>) -> Seq<(KeyView, Seq<char>)>
    decreases s.len(),
{
    if s.len() == 0 {
        Seq::empty()
    } else {
        let prev = plan_of(s.drop_last());
        let k = key_of(s.last());
        if plan_has(prev, k) {
            prev
        } else {
            prev.push((k, s.last().version@))
        }
    }
}

/// The identities of a plan's entries, in plan order.
pub open spec fn plan_keys(plan: Seq<(KeyView, Seq<char>)>) -> Seq<KeyView> {
    plan.map_values(|e: (KeyView, Seq<char>)| e.0)
}

/// The identities of a plan that are looked up, in plan order.
pub open spec fn lookups_of(plan: Seq<(KeyView, Seq<char>)>) -> Seq<KeyView> {
    plan_keys(plan).filter(|k: KeyView| needs_lookup(k))
}

/// The distinct identities of all platforms' packages, each with the first
/// installed version seen for it.
pub struct QueryPlan {
    pub entries: Vec<(PackageKey, String)>,
}

impl View for QueryPlan {
    type V = Seq<(KeyView, Seq<char>)>;

    open spec fn view(&self) -> Seq<(KeyView, Seq<char>)> {
        self.entries@.map_values(|e: (PackageKey, String)| (e.0@, e.1@))
    }
}

impl QueryPlan {
    /// Whether the plan holds an entry for `key`.
    pub fn contains(&self, key: &PackageKey) -> (r: bool)
        ensures
            r == plan_has(self@, key@),
    {
        let mut i: usize = 0;
        while i < self.entries.len()
            invariant
                0 <= i <= self.entries.len(),
                forall|j: int| 0 <= j < i ==> (#[trigger] self@[j]).0 != key@,
            decreases self.entries.len() - i,
        {
            if self.entries[i].0 == *key {
                assert(self@[i as int].0 == key@);
                return true;
            }
            i += 1;
        }
        false
    }

    /// The identities to look up, in plan order: every entry but those of
    /// conda packages whose channel is unknown.
    pub fn lookup_keys(&self) -> (r: Vec<PackageKey>)
        ensures
            r@.map_values(|k: PackageKey| k@) == lookups_of(self@),
    {
        let mut out: Vec<PackageKey> = Vec::new();
        let mut i: usize = 0;
        while i < self.entries.len()
            invariant
                0 <= i <= self.entries.len(),
                out@.map_values(|k: PackageKey| k@) == plan_keys(self@).take(i as int).filter(
                    |k: KeyView| needs_lookup(k),
                ),
            decreases self.entries.len() - i,
        {
            let ghost keys = plan_keys(self@);
            proof {
                assert(keys.take(i + 1) =~= keys.take(i as int).push(keys[i as int]));
                keys.take(i as int).lemma_filter_push(keys[i as int], |k: KeyView| needs_lookup(k));
            }
            let key = &self.entries[i].0;
            let wanted = match key.kind {
                PackageKind::Pypi => true,
                PackageKind::Conda => key.channel.is_some(),
            };
            if wanted {
                let k = PackageKey {
                    name: key.name.clone(),
                    channel: key.channel.clone(),
                    kind: key.kind,
                };
                out.push(k);
                assert(out@.map_values(|k: PackageKey| k@) =~= keys.take(i as int).filter(
                    |k: KeyView| needs_lookup(k),
                ).push(keys[i as int]));
            }
            i += 1;
        }
        proof {
            let keys = plan_keys(self@);
            assert(keys.take(self.entries.len() as int) =~= keys);
        }
        out
    }
}

/// Collects, over all platforms, the distinct identities of the installed
/// packages: the first record of an identity enters the plan, later ones
/// are passed over.
pub fn plan_queries(platform_packages: &Vec<PlatformPackages>) -> (plan: QueryPlan)
    ensures
        plan@ == plan_of(all_packages(platform_packages@)),
{
    let mut plan = QueryPlan { entries: Vec::new() };
    let mut i: usize = 0;
    while i < platform_packages.len()
        invariant
            0 <= i <= platform_packages.len(),
            plan@ == plan_of(all_packages(platform_packages@.take(i as int))),
        decreases platform_packages.len() - i,
    {
        let packages = &platform_packages[i].packages;
        let ghost before = all_packages(platform_packages@.take(i as int));
        proof {
            assert(platform_packages@.take(i + 1).drop_last() =~= platform_packages@.take(i as int));
        }
        let mut j: usize = 0;
        while j < packages.len()
            invariant
                0 <= j <= packages.len(),
                packages == platform_packages@[i as int].packages,
                plan@ == plan_of(before + packages@.take(j as int)),
            decreases packages.len() - j,
        {
            let package = &packages[j];
            let key = package_key(package);
            proof {
                let s = before + packages@.take(j + 1);
                assert(s.drop_last() =~= before + packages@.take(j as int));
                assert(s.last() == packages@[j as int]);
            }
            if !plan.contains(&key) {
                let version = package.version.clone();
                plan.entries.push((key, version));
                assert(plan@ =~= plan_of(before + packages@.take(j as int)).push(
                    (key_of(*package), package.version@),
                ));
            }
            j += 1;
        }
        assert(before + packages@.take(j as int) =~= all_packages(
            platform_packages@.take(i + 1),
        ));
        i += 1;
    }
    assert(platform_packages@.take(i as int) =~= platform_packages@);
    plan
}

// ---------------------------------------------------------------------------
// Version cache

/// Why the version lookup of a dependency failed.
#[derive(Debug, Clone, PartialEq, Eq)]
pub struct LookupFailure {
    pub message: String,
}

/// The outcome of one version lookup: the latest version, no version, or a
/// failure.
pub type LookupResult = Result<Option<String>, LookupFailure>;

/// The latest version that a lookup found, if it found one.
pub open spec fn latest_of(r: LookupResult) -> Option<Seq<char>> {
    match r {
        Ok(Some(v)) => Some(v@),
        _ => None,
    }
}

/// The identities and outcomes of a list of cache entries; a later entry of
/// an identity hides an earlier one.
pub open spec fn cache_map(s: Seq<(PackageKey, LookupResult)>) -> Map<KeyView, LookupResult>
    decreases s.len(),
{
    if s.len() == 0 {
        Map::empty()
    } else {
        cache_map(s.drop_last()).insert(s.last().0@, s.last().1)
    }
}

/// A map after a write-once store: an identity that is present keeps its
/// outcome.
pub open spec fn stored_once(
    m: Map<KeyView, LookupResult>,
    k: KeyView,
    r: LookupResult,
) -> Map<KeyView, LookupResult> {
    if m.contains_key(k) {
        m
    } else {
        m.insert(k, r)
    }
}

proof fn lemma_cache_map_prefix(s: Seq<(PackageKey, LookupResult)>, i: int, k: KeyView)
    requires
        0 <= i <= s.len(),
        forall|j: int| i <= j < s.len() ==> (#[trigger] s[j]).0@ != k,
    ensures
        cache_map(s).contains_key(k) == cache_map(s.take(i)).contains_key(k),
        cache_map(s).contains_key(k) ==> cache_map(s)[k] == cache_map(s.take(i))[k],
    decreases s.len() - i,
{
    if i < s.len() {
        lemma_cache_map_prefix(s, i + 1, k);
        assert(s.take(i + 1).drop_last() =~= s.take(i));
        assert(s.take(i + 1).last() == s[i]);
    } else {
        assert(s.take(i) =~= s);
    }
}

/// The outcome of each looked-up identity, written once per identity.
pub struct VersionCache {
    pub entries: Vec<(PackageKey, LookupResult)>,
}

impl View for VersionCache {
    type V = Map<KeyView, LookupResult>;

    open spec fn view(&self) -> Map<KeyView, LookupResult> {
        cache_map(self.entries@)
    }
}

impl VersionCache {
    /// An empty cache.
    pub fn new() -> (c: VersionCache)
        ensures
            c@ == Map::<KeyView, LookupResult>::empty(),
    {
        VersionCache { entries: Vec::new() }
    }

    /// The outcome stored for `key`, if any.
    pub fn get(&self, key: &PackageKey) -> (r: Option<&LookupResult>)
        ensures
            r is None <==> !self@.contains_key(key@),
            r matches Some(v) ==> *v == self@[key@],
    {
        let mut i: usize = self.entries.len();
        while i > 0
            invariant
                0 <= i <= self.entries.len(),
                forall|j: int| i <= j < self.entries.len() ==> (#[trigger] self.entries@[j]).0@
                    != key@,
            decreases i,
        {
            i -= 1;
            if self.entries[i].0 == *key {
                proof {
                    let s = self.entries@;
                    lemma_cache_map_prefix(s, i + 1, key@);
                    assert(s.take(i + 1).drop_last() =~= s.take(i as int));
                    assert(s.take(i + 1).last() == s[i as int]);
                }
                return Some(&self.entries[i].1);
            }
        }
        proof {
            lemma_cache_map_prefix(self.entries@, 0, key@);
            assert(self.entries@.take(0) =~= Seq::<(PackageKey, LookupResult)>::empty());
        }
        None
    }

    /// Stores the outcome of the lookup of `key`. A slot is written once: an
    /// identity that already has an outcome keeps it.
    pub fn insert(&mut self, key: PackageKey, result: LookupResult)
        ensures
            final(self)@ == stored_once(old(self)@, key@, result),
    {
        if self.get(&key).is_none() {
            self.entries.push((key, result));
            proof {
                assert(final(self).entries@.drop_last() =~= old(self).entries@);
            }
        }
    }
}

/// The result of a PyPI lookup in the form of the cache: a version found, or
/// the failure.
pub fn pypi_lookup_result(r: Result<String, LookupFailure>) -> (out: LookupResult)
    ensures
        match r {
            Ok(v) => out == Ok::<Option<String>, LookupFailure>(Some(v)),
            Err(e) => out == Err::<Option<String>, LookupFailure>(e),
        },
{
    match r {
        Ok(v) => Ok(Some(v)),
        Err(e) => Err(e),
    }
}

// ---------------------------------------------------------------------------
// Per-platform diff

/// The update that the cache gives for an installed package: where a latest
/// version was found and differs from the installed one.
pub open spec fn update_of(p: PixiPackage, cache: Map<KeyView, LookupResult>) -> Option<UpdateView> {
    let k = key_of(p);
    if cache.contains_key(k) {
        match latest_of(cache[k]) {
            Some(latest) => if latest != p.version@ {
                Some((p.name@, p.version@, latest))
            } else {
                None
            },
            None => None,
        }
    } else {
        None
    }
}

/// The updates of a platform's packages, in the order of the packages.
pub open spec fn diff_of(s: Seq<PixiPackage>, cache: Map<KeyView, LookupResult>) -> Seq<UpdateView>
    decreases s.len(),
{
    if s.len() == 0 {
        Seq::empty()
    } else {
        let prev = diff_of(s.drop_last(), cache);
        match update_of(s.last(), cache) {
            Some(u) => prev.push(u),
            None => prev,
        }
    }
}

/// The views of a list of updates.
pub open spec fn updates_view(s: Seq<PackageUpdate>) -> Seq<UpdateView> {
    s.map_values(|u: PackageUpdate| u@)
}

/// Lists, in package order, the updates that the cache shows for one
/// platform's packages.
pub fn diff_platform(packages: &Vec<PixiPackage>, cache: &VersionCache) -> (r: Vec<PackageUpdate>)
    ensures
        updates_view(r@) == diff_of(packages@, cache@),
{
    let mut out: Vec<PackageUpdate> = Vec::new();
    let mut i: usize = 0;
    while i < packages.len()
        invariant
            0 <= i <= packages.len(),
            updates_view(out@) == diff_of(packages@.take(i as int), cache@),
        decreases packages.len() - i,
    {
        let package = &packages[i];
        proof {
            assert(packages@.take(i + 1).drop_last() =~= packages@.take(i as int));
            assert(packages@.take(i + 1).last() == packages@[i as int]);
        }
        let key = package_key(package);
        match cache.get(&key) {
            Some(Ok(Some(latest))) => {
                if *latest != package.version {
                    out.push(
                        PackageUpdate {
                            name: package.name.clone(),
                            installed_version: package.version.clone(),
                            latest_version: latest.clone(),
                        },
                    );
                    assert(updates_view(out@) =~= diff_of(packages@.take(i as int), cache@).push(
                        (package.name@, package.version@, latest@),
                    ));
                }
            },
            _ => {},
        }
        i += 1;
    }
    assert(packages@.take(i as int) =~= packages@);
    out
}

/// The updates of one platform.
#[derive(Debug, Clone, PartialEq, Eq)]
pub struct PlatformUpdates {
    pub platform: String,
    pub updates: Vec<PackageUpdate>,
}

impl View for PlatformUpdates {
    type V = (Seq<char>, Seq<UpdateView>);

    open spec fn view(&self) -> (Seq<char>, Seq<UpdateView>) {
        (self.platform@, updates_view(self.updates@))
    }
}

/// The views of a list of platforms' updates.
pub open spec fn platforms_view(s: Seq<PlatformUpdates>) -> Seq<(Seq<char>, Seq<UpdateView>)> {
    s.map_values(|p: PlatformUpdates| p@)
}

/// The diff of every platform, in platform order.
pub open spec fn diffs_of(pps: Seq<PlatformPackages>, cache: Map<KeyView, LookupResult>) -> Seq<
    (Seq<char>, Seq<UpdateView>),
> {
    pps.map_values(|p: PlatformPackages| (p.platform@, diff_of(p.packages@, cache)))
}

/// Builds the updates of every platform from the cache, one entry per
/// platform (empty where nothing is out of date).
pub fn platform_updates(platform_packages: &Vec<PlatformPackages>, cache: &VersionCache) -> (r: Vec<
    PlatformUpdates,
>)
    ensures
        platforms_view(r@) == diffs_of(platform_packages@, cache@),
{
    let mut out: Vec<PlatformUpdates> = Vec::new();
    let mut i: usize = 0;
    while i < platform_packages.len()
        invariant
            0 <= i <= platform_packages.len(),
            platforms_view(out@) == diffs_of(platform_packages@.take(i as int), cache@),
        decreases platform_packages.len() - i,
    {
        let entry = &platform_packages[i];
        let updates = diff_platform(&entry.packages, cache);
        let ghost before = out@;
        out.push(PlatformUpdates { platform: entry.platform.clone(), updates });
        proof {
            assert(out@ =~= before.push(out@.last()));
            assert(out@.last()@ == (entry.platform@, diff_of(entry.packages@, cache@)));
            assert(platforms_view(out@) =~= platforms_view(before).push(out@.last()@));
            assert(platform_packages@.take(i + 1) =~= platform_packages@.take(i as int).push(
                *entry,
            ));
        }
        assert(platforms_view(out@) =~= diffs_of(platform_packages@.take(i + 1), cache@));
        i += 1;
    }
    assert(platform_packages@.take(i as int) =~= platform_packages@);
    out
}

// ---------------------------------------------------------------------------
// Cross-platform coalescer

/// Whether every platform after the first lists the update.
pub open spec fn on_every_other(m: Seq<(Seq<char>, Seq<UpdateView>)>, u: UpdateView) -> bool {
    forall|i: int| 1 <= i < m.len() ==> (#[trigger] m[i]).1.contains(u)
}

/// The test of `on_every_other`, as a predicate.
pub open spec fn common_in(m: Seq<(Seq<char>, Seq<UpdateView>)>) -> spec_fn(UpdateView) -> bool {
    |u: UpdateView| on_every_other(m, u)
}

/// The predicate of the updates that are not in `common`.
pub open spec fn not_in(common: Seq<UpdateView>) -> spec_fn(UpdateView) -> bool {
    |u: UpdateView| !common.contains(u)
}

/// The updates common to all reporting platforms: those of the first
/// platform that every other one lists too. There are none unless at least
/// two platforms were checked and at least two reported.
pub open spec fn common_of(m: Seq<(Seq<char>, Seq<UpdateView>)>, checked: nat) -> Seq<UpdateView> {
    if checked >= 2 && m.len() >= 2 {
        m[0].1.filter(common_in(m))
    } else {
        Seq::empty()
    }
}

/// Each platform's updates without those in `common`, in platform order;
/// platforms left with none are dropped.
pub open spec fn specific_lists(
    m: Seq<(Seq<char>, Seq<UpdateView>)>,
    common: Seq<UpdateView>,
) -> Seq<(Seq<char>, Seq<UpdateView>)>
    decreases m.len(),
{
    if m.len() == 0 {
        Seq::empty()
    } else {
        let prev = specific_lists(m.drop_last(), common);
        let rest = m.last().1.filter(not_in(common));
        if rest.len() > 0 {
            prev.push((m.last().0, rest))
        } else {
            prev
        }
    }
}

/// The platform-specific part of the report: the updates unchanged where at
/// most one platform was checked, else `specific_lists` of the common ones.
pub open spec fn specific_of(m: Seq<(Seq<char>, Seq<UpdateView>)>, checked: nat) -> Seq<
    (Seq<char>, Seq<UpdateView>),
> {
    if checked <= 1 {
        m
    } else {
        specific_lists(m, common_of(m, checked))
    }
}

/// Updates shared by all platforms, and the rest per platform.
#[derive(Debug, Clone, PartialEq, Eq)]
pub struct CoalescedReport {
    pub common_updates: Vec<PackageUpdate>,
    pub per_platform: Vec<PlatformUpdates>,
}

fn list_contains(list: &Vec<PackageUpdate>, u: &PackageUpdate) -> (r: bool)
    ensures
        r == updates_view(list@).contains(u@),
{
    let mut i: usize = 0;
    while i < list.len()
        invariant
            0 <= i <= list.len(),
            forall|j: int| 0 <= j < i ==> (#[trigger] updates_view(list@)[j]) != u@,
        decreases list.len() - i,
    {
        if list[i].same_as(u) {
            assert(updates_view(list@)[i as int] == u@);
            return true;
        }
        i += 1;
    }
    false
}

fn copy_updates(list: &Vec<PackageUpdate>) -> (r: Vec<PackageUpdate>)
    ensures
        updates_view(r@) == updates_view(list@),
{
    let mut out: Vec<PackageUpdate> = Vec::new();
    let mut i: usize = 0;
    while i < list.len()
        invariant
            0 <= i <= list.len(),
            updates_view(out@) == updates_view(list@.take(i as int)),
        decreases list.len() - i,
    {
        let ghost before = out@;
        out.push(list[i].duplicate());
        proof {
            assert(out@ =~= before.push(out@.last()));
            assert(updates_view(out@) =~= updates_view(before).push(out@.last()@));
        }
        assert(updates_view(out@) =~= updates_view(list@.take(i + 1)));
        i += 1;
    }
    assert(list@.take(i as int) =~= list@);
    out
}

fn copy_platforms(list: &Vec<PlatformUpdates>) -> (r: Vec<PlatformUpdates>)
    ensures
        platforms_view(r@) == platforms_view(list@),
{
    let mut out: Vec<PlatformUpdates> = Vec::new();
    let mut i: usize = 0;
    while i < list.len()
        invariant
            0 <= i <= list.len(),
            platforms_view(out@) == platforms_view(list@.take(i as int)),
        decreases list.len() - i,
    {
        let updates = copy_updates(&list[i].updates);
        let ghost before = out@;
        out.push(PlatformUpdates { platform: list[i].platform.clone(), updates });
        proof {
            assert(out@ =~= before.push(out@.last()));
            assert(platforms_view(out@) =~= platforms_view(before).push(out@.last()@));
        }
        assert(platforms_view(out@) =~= platforms_view(list@.take(i + 1)));
        i += 1;
    }
    assert(list@.take(i as int) =~= list@);
    out
}

fn on_all_others(m: &Vec<PlatformUpdates>, u: &PackageUpdate) -> (r: bool)
    ensures
        r == on_every_other(platforms_view(m@), u@),
{
    let mut i: usize = 1;
    while i < m.len()
        invariant
            1 <= i,
            i <= m.len() || m.len() == 0,
            forall|j: int| 1 <= j < i && j < m.len() ==> (#[trigger] platforms_view(m@)[j]).1.contains(
                u@,
            ),
        decreases m.len() - i,
    {
        if !list_contains(&m[i].updates, u) {
            assert(!platforms_view(m@)[i as int].1.contains(u@));
            return false;
        }
        i += 1;
    }
    true
}

fn without(list: &Vec<PackageUpdate>, common: &Vec<PackageUpdate>) -> (r: Vec<PackageUpdate>)
    ensures
        updates_view(r@) == updates_view(list@).filter(not_in(updates_view(common@))),
{
    let ghost keep = not_in(updates_view(common@));
    let mut out: Vec<PackageUpdate> = Vec::new();
    let mut i: usize = 0;
    while i < list.len()
        invariant
            0 <= i <= list.len(),
            keep == not_in(updates_view(common@)),
            updates_view(out@) == updates_view(list@).take(i as int).filter(keep),
        decreases list.len() - i,
    {
        let ghost view = updates_view(list@);
        proof {
            assert(view.take(i + 1) =~= view.take(i as int).push(view[i as int]));
            view.take(i as int).lemma_filter_push(view[i as int], keep);
        }
        if !list_contains(common, &list[i]) {
            out.push(list[i].duplicate());
            assert(updates_view(out@) =~= view.take(i as int).filter(keep).push(view[i as int]));
        }
        i += 1;
    }
    assert(updates_view(list@).take(i as int) =~= updates_view(list@));
    out
}

/// Splits the platforms' updates into those common to every reporting
/// platform and those specific to one. With at most one platform checked the
/// updates pass through unchanged; else an update of the first platform is
/// common when every other platform lists the same name, installed version
/// and latest version, and each platform keeps only its other updates.
pub fn coalesce(platform_updates: &Vec<PlatformUpdates>, checked_platforms: &Vec<String>) -> (r:
    CoalescedReport)
    ensures
        updates_view(r.common_updates@) == common_of(
            platforms_view(platform_updates@),
            checked_platforms@.len(),
        ),
        platforms_view(r.per_platform@) == specific_of(
            platforms_view(platform_updates@),
            checked_platforms@.len(),
        ),
        checked_platforms@.len() <= 1 ==> r.common_updates@.len() == 0 && platforms_view(
            r.per_platform@,
        ) == platforms_view(platform_updates@),
{
    let ghost m = platforms_view(platform_updates@);
    if checked_platforms.len() <= 1 {
        return CoalescedReport {
            common_updates: Vec::new(),
            per_platform: copy_platforms(platform_updates),
        };
    }
    let mut common: Vec<PackageUpdate> = Vec::new();
    if platform_updates.len() >= 2 {
        let first = &platform_updates[0].updates;
        let ghost pred = common_in(m);
        let mut i: usize = 0;
        while i < first.len()
            invariant
                0 <= i <= first.len(),
                m == platforms_view(platform_updates@),
                platform_updates.len() >= 2,
                first == platform_updates@[0].updates,
                pred == common_in(m),
                updates_view(common@) == m[0].1.take(i as int).filter(pred),
            decreases first.len() - i,
        {
            let ghost view = m[0].1;
            proof {
                assert(view.take(i + 1) =~= view.take(i as int).push(view[i as int]));
                view.take(i as int).lemma_filter_push(view[i as int], pred);
            }
            if on_all_others(platform_updates, &first[i]) {
                common.push(first[i].duplicate());
                assert(updates_view(common@) =~= view.take(i as int).filter(pred).push(
                    view[i as int],
                ));
            }
            i += 1;
        }
        assert(m[0].1.take(i as int) =~= m[0].1);
    }
    let mut per_platform: Vec<PlatformUpdates> = Vec::new();
    let mut j: usize = 0;
    while j < platform_updates.len()
        invariant
            0 <= j <= platform_updates.len(),
            m == platforms_view(platform_updates@),
            updates_view(common@) == common_of(m, checked_platforms@.len()),
            platforms_view(per_platform@) == specific_lists(
                m.take(j as int),
                updates_view(common@),
            ),
        decreases platform_updates.len() - j,
    {
        let rest = without(&platform_updates[j].updates, &common);
        proof {
            assert(m.take(j + 1).drop_last() =~= m.take(j as int));
            assert(m.take(j + 1).last() == m[j as int]);
        }
        if rest.len() > 0 {
            let ghost before = per_platform@;
            per_platform.push(PlatformUpdates { platform: platform_updates[j].platform.clone(), updates: rest });
            proof {
                assert(per_platform@ =~= before.push(per_platform@.last()));
                assert(platforms_view(per_platform@) =~= platforms_view(before).push(
                    per_platform@.last()@,
                ));
            }
        }
        j += 1;
    }
    assert(m.take(j as int) =~= m);
    CoalescedReport { common_updates: common, per_platform }
}

/// The report: the updates common to all platforms, and the rest per
/// platform.
pub open spec fn report_of(
    platform_packages: Seq<PlatformPackages>,
    cache: Map<KeyView, LookupResult>,
    checked: nat,
) -> (Seq<UpdateView>, Seq<(Seq<char>, Seq<UpdateView>)>) {
    let m = diffs_of(platform_packages, cache);
    (common_of(m, checked), specific_of(m, checked))
}

impl View for CoalescedReport {
    type V = (Seq<UpdateView>, Seq<(Seq<char>, Seq<UpdateView>)>);

    open spec fn view(&self) -> (Seq<UpdateView>, Seq<(Seq<char>, Seq<UpdateView>)>) {
        (updates_view(self.common_updates@), platforms_view(self.per_platform@))
    }
}

/// Runs the diff of every platform against the cache, then the coalescing.
pub fn build_report(
    platform_packages: &Vec<PlatformPackages>,
    cache: &VersionCache,
    checked_platforms: &Vec<String>,
) -> (r: CoalescedReport)
    ensures
        r@ == report_of(platform_packages@, cache@, checked_platforms@.len()),
{
    let updates = platform_updates(platform_packages, cache);
    coalesce(&updates, checked_platforms)
}

// ---------------------------------------------------------------------------
// Properties of the update report

/// The identities of a sequence of records, in order.
pub open spec fn keys_of(s: Seq<PixiPackage>) -> Seq<KeyView> {
    s.map_values(|p: PixiPackage| key_of(p))
}

proof fn lemma_plan_keys(s: Seq<PixiPackage>)
    ensures
        plan_keys(plan_of(s)).no_duplicates(),
        plan_keys(plan_of(s)).to_set() == keys_of(s).to_set(),
    decreases s.len(),
{
    if s.len() == 0 {
        assert(plan_keys(plan_of(s)) =~= keys_of(s));
    } else {
        let prev = plan_of(s.drop_last());
        lemma_plan_keys(s.drop_last());
        let k = key_of(s.last());
        assert(keys_of(s) =~= keys_of(s.drop_last()).push(k));
        keys_of(s.drop_last()).lemma_push_to_set_commute(k);
        if plan_has(prev, k) {
            let i = choose|i: int| 0 <= i < prev.len() && (#[trigger] prev[i]).0 == k;
            assert(plan_keys(prev)[i] == k);
            assert(plan_keys(prev).to_set().contains(k));
            assert(keys_of(s).to_set() =~= keys_of(s.drop_last()).to_set());
        } else {
            let e = (k, s.last().version@);
            assert(plan_keys(prev.push(e)) =~= plan_keys(prev).push(k));
            plan_keys(prev).lemma_push_to_set_commute(k);
            assert forall|i: int| 0 <= i < plan_keys(prev).len() implies plan_keys(prev)[i] != k by {
                assert(prev[i].0 == plan_keys(prev)[i]);
            }
        }
    }
}

proof fn lemma_filter_distinct(s: Seq<KeyView>, pred: spec_fn(KeyView) -> bool)
    requires
        s.no_duplicates(),
    ensures
        s.filter(pred).no_duplicates(),
    decreases s.len(),
{
    if s.len() == 0 {
        reveal(Seq::filter);
    } else {
        let prev = s.drop_last();
        let x = s.last();
        lemma_filter_distinct(prev, pred);
        assert(s =~= prev.push(x));
        prev.lemma_filter_push(x, pred);
        if pred(x) {
            let f = prev.filter(pred);
            if f.contains(x) {
                prev.lemma_filter_contains_rev(pred, x);
                let i = choose|i: int| 0 <= i < prev.len() && prev[i] == x;
                assert(s[i] == s[s.len() - 1]);
            }
            assert forall|i: int, j: int|
                0 <= i < f.push(x).len() && 0 <= j < f.push(x).len() && i != j implies f.push(x)[i]
                != f.push(x)[j] by {
                if i == f.len() {
                    assert(f[j] == f.push(x)[j]);
                } else if j == f.len() {
                    assert(f[i] == f.push(x)[i]);
                }
            }
        }
    }
}

/// Deduplication: for any platforms' package lists, the plan holds each
/// identity once and exactly the identities of the records, so it has as
/// many entries as there are distinct (name, channel, ecosystem) triples;
/// and the lookups drawn from it name each identity at most once.
pub proof fn lemma_plan_dedup(platform_packages: Seq<PlatformPackages>)
    ensures
        plan_keys(plan_of(all_packages(platform_packages))).no_duplicates(),
        plan_keys(plan_of(all_packages(platform_packages))).to_set() == keys_of(
            all_packages(platform_packages),
        ).to_set(),
        plan_of(all_packages(platform_packages)).len() == keys_of(
            all_packages(platform_packages),
        ).to_set().len(),
        lookups_of(plan_of(all_packages(platform_packages))).no_duplicates(),
{
    let plan = plan_of(all_packages(platform_packages));
    lemma_plan_keys(all_packages(platform_packages));
    plan_keys(plan).unique_seq_to_set();
    lemma_filter_distinct(plan_keys(plan), |k: KeyView| needs_lookup(k));
}

/// Failure isolation: where the lookup of `y` fails and that of `z`
/// succeeds, the cache holds the failure for `y` and the outcome for `z`; no
/// record of identity `y` yields an update, and each record of identity `z`
/// yields what it would have yielded without `y`'s failure.
pub proof fn lemma_failure_isolation(
    cache: Map<KeyView, LookupResult>,
    y: KeyView,
    failure: LookupFailure,
    z: KeyView,
    found: Option<String>,
)
    requires
        y != z,
        !cache.contains_key(y),
        !cache.contains_key(z),
    ensures
        ({
            let failed = stored_once(cache, y, Err(failure));
            let after = stored_once(failed, z, Ok(found));
            &&& after[y] == Err::<Option<String>, LookupFailure>(failure)
            &&& after[z] == Ok::<Option<String>, LookupFailure>(found)
            &&& forall|p: PixiPackage| key_of(p) == y ==> (#[trigger] update_of(p, after)) is None
            &&& forall|q: PixiPackage|
                key_of(q) == z ==> #[trigger] update_of(q, after) == update_of(
                    q,
                    stored_once(cache, z, Ok(found)),
                )
        }),
{
}

/// The cache after storing the outcome of each lookup in turn.
pub open spec fn cache_after(keys: Seq<KeyView>, results: Seq<LookupResult>) -> Map<
    KeyView,
    LookupResult,
>
    decreases keys.len(),
{
    if keys.len() == 0 || results.len() == 0 {
        Map::empty()
    } else {
        stored_once(
            cache_after(keys.drop_last(), results.drop_last()),
            keys.last(),
            results.last(),
        )
    }
}

/// Lookups of distinct identities leave the same cache in either order.
pub proof fn lemma_store_order(
    cache: Map<KeyView, LookupResult>,
    a: KeyView,
    ra: LookupResult,
    b: KeyView,
    rb: LookupResult,
)
    requires
        a != b,
    ensures
        stored_once(stored_once(cache, a, ra), b, rb) == stored_once(
            stored_once(cache, b, rb),
            a,
            ra,
        ),
{
    assert(stored_once(stored_once(cache, a, ra), b, rb) =~= stored_once(
        stored_once(cache, b, rb),
        a,
        ra,
    ));
}

proof fn lemma_cache_after_keys(keys: Seq<KeyView>, results: Seq<LookupResult>, k: KeyView)
    requires
        cache_after(keys, results).contains_key(k),
    ensures
        keys.contains(k),
    decreases keys.len(),
{
    if keys.len() > 0 && results.len() > 0 {
        if k != keys.last() {
            lemma_cache_after_keys(keys.drop_last(), results.drop_last(), k);
            let i = choose|i: int| 0 <= i < keys.drop_last().len() && keys.drop_last()[i] == k;
            assert(keys[i] == k);
        } else {
            assert(keys[keys.len() - 1] == k);
        }
    }
}

/// A conda record whose channel cannot be derived is never looked up, and
/// yields no update from a cache filled with the outcomes of the lookups.
pub proof fn lemma_no_channel_no_update(
    platform_packages: Seq<PlatformPackages>,
    results: Seq<LookupResult>,
    p: PixiPackage,
)
    requires
        p.kind == PackageKind::Conda,
        channel_of_source(p.source) is None,
    ensures
        !lookups_of(plan_of(all_packages(platform_packages))).contains(key_of(p)),
        update_of(p, cache_after(lookups_of(plan_of(all_packages(platform_packages))), results))
            is None,
{
    let lookups = lookups_of(plan_of(all_packages(platform_packages)));
    let pred = |k: KeyView| needs_lookup(k);
    if lookups.contains(key_of(p)) {
        let i = choose|i: int| 0 <= i < lookups.len() && lookups[i] == key_of(p);
        plan_keys(plan_of(all_packages(platform_packages))).lemma_filter_pred(pred, i);
    }
    if cache_after(lookups, results).contains_key(key_of(p)) {
        lemma_cache_after_keys(lookups, results, key_of(p));
    }
}

/// Idempotence: two runs of the diff and the coalescing over the same
/// packages and cache give equal reports, field by field.
pub proof fn lemma_rerun_same_report(
    platform_packages: Seq<PlatformPackages>,
    cache: Map<KeyView, LookupResult>,
    checked: nat,
    first: CoalescedReport,
    second: CoalescedReport,
)
    requires
        first@ == report_of(platform_packages, cache, checked),
        second@ == report_of(platform_packages, cache, checked),
    ensures
        first@ == second@,
        updates_view(first.common_updates@) == updates_view(second.common_updates@),
        platforms_view(first.per_platform@) == platforms_view(second.per_platform@),
{
}

proof fn lemma_specific_lists_keep(
    m: Seq<(Seq<char>, Seq<UpdateView>)>,
    common: Seq<UpdateView>,
    i: int,
)
    requires
        0 <= i < m.len(),
        m[i].1.filter(not_in(common)).len() > 0,
    ensures
        specific_lists(m, common).contains((m[i].0, m[i].1.filter(not_in(common)))),
    decreases m.len(),
{
    let prev = specific_lists(m.drop_last(), common);
    if i == m.len() - 1 {
        assert(specific_lists(m, common) == prev.push((m[i].0, m[i].1.filter(not_in(common)))));
        assert(specific_lists(m, common)[prev.len() as int] == (
            m[i].0,
            m[i].1.filter(not_in(common)),
        ));
    } else {
        assert(m.drop_last()[i] == m[i]);
        lemma_specific_lists_keep(m.drop_last(), common, i);
        let j = choose|j: int|
            0 <= j < prev.len() && prev[j] == (m[i].0, m[i].1.filter(not_in(common)));
        assert(specific_lists(m, common)[j] == prev[j]);
    }
}

proof fn lemma_specific_lists_disjoint(
    m: Seq<(Seq<char>, Seq<UpdateView>)>,
    common: Seq<UpdateView>,
    j: int,
    u: UpdateView,
)
    requires
        0 <= j < specific_lists(m, common).len(),
        specific_lists(m, common)[j].1.contains(u),
    ensures
        !common.contains(u),
    decreases m.len(),
{
    let prev = specific_lists(m.drop_last(), common);
    let rest = m.last().1.filter(not_in(common));
    if j < prev.len() {
        lemma_specific_lists_disjoint(m.drop_last(), common, j, u);
    } else {
        assert(specific_lists(m, common)[j] == (m.last().0, rest));
        let k = choose|k: int| 0 <= k < rest.len() && rest[k] == u;
        m.last().1.lemma_filter_pred(not_in(common), k);
    }
}

/// Partition of the report: with two or more platforms checked, a common
/// update is listed by every reporting platform; no platform's entry holds
/// a common update; and every update of a platform is common or kept in
/// that platform's entry.
pub proof fn lemma_report_partition(m: Seq<(Seq<char>, Seq<UpdateView>)>, checked: nat)
    requires
        checked >= 2,
    ensures
        forall|i: int, u: UpdateView|
            0 <= i < m.len() && #[trigger] common_of(m, checked).contains(u) ==> (#[trigger] m[i]).1.contains(u),
        forall|j: int, u: UpdateView|
            0 <= j < specific_of(m, checked).len() && #[trigger] specific_of(m, checked)[j].1.contains(u)
                ==> !common_of(m, checked).contains(u),
        forall|i: int, u: UpdateView|
            0 <= i < m.len() && #[trigger] m[i].1.contains(u) && !common_of(m, checked).contains(u)
                ==> specific_of(m, checked).contains((m[i].0, m[i].1.filter(not_in(common_of(m, checked)))))
                && m[i].1.filter(not_in(common_of(m, checked))).contains(u),
{
    let common = common_of(m, checked);
    assert forall|i: int, u: UpdateView|
        0 <= i < m.len() && #[trigger] common_of(m, checked).contains(u) implies (#[trigger] m[i]).1.contains(u) by {
        let k = choose|k: int| 0 <= k < common.len() && common[k] == u;
        m[0].1.lemma_filter_pred(common_in(m), k);
        if i == 0 {
            m[0].1.lemma_filter_contains_rev(common_in(m), u);
        }
    }
    assert forall|j: int, u: UpdateView|
        0 <= j < specific_of(m, checked).len() && #[trigger] specific_of(m, checked)[j].1.contains(u)
            implies !common_of(m, checked).contains(u) by {
        lemma_specific_lists_disjoint(m, common, j, u);
    }
    assert forall|i: int, u: UpdateView|
        0 <= i < m.len() && #[trigger] m[i].1.contains(u) && !common_of(m, checked).contains(u)
            implies specific_of(m, checked).contains((m[i].0, m[i].1.filter(not_in(common_of(m, checked)))))
            && m[i].1.filter(not_in(common_of(m, checked))).contains(u) by {
        let k = choose|k: int| 0 <= k < m[i].1.len() && m[i].1[k] == u;
        m[i].1.lemma_filter_contains(not_in(common), k);
        lemma_specific_lists_keep(m, common, i);
    }
}

} // verus!
