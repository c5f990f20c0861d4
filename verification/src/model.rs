//! The data model: releases of Node.js and the queries on them, the
//! configuration, and the version argument of the command line.

use vstd::prelude::*;
use crate::command_args::{invalid_message, parse_semver, refusal, semver_parse, SemVer};
use crate::text::{
    ascii_case_insensitive_eq, decimal, decimal_string, eq_ignore_ascii_case, has_prefix, starts_with,
    lowercase, starts_with_char, to_lowercase, views,
};

verus! {

/// The architecture of a Node.js build: 32 or 64 bit.
#[derive(Clone, Copy, Debug, PartialEq, Eq, Structural)]
pub enum ArchSpec {
    /// 32 bit
    X86,
    /// 64 bit
    X64,
}

/// The `lts` field of a release: the codename of an LTS line, or `false`
/// (a `true` is accepted too, and kept as it came).
#[derive(Clone, Debug)]
pub enum LtsSpec {
    Codename(String),
    NotLts(bool),
}

/// Release information of one Node.js version.
#[derive(Clone, Debug)]
pub struct NodeReleaseInfo {
    /// The version, such as "v26.8.1".
    pub version: String,
    /// The release date, YYYY-MM-DD.
    pub date: String,
    /// Whether the release belongs to an LTS line.
    pub lts: LtsSpec,
}

/// What the release queries read of an entry of a release list.
pub trait Release {
    spec fn version_view(&self) -> Seq<char>;

    spec fn lts_view(&self) -> LtsSpec;

    fn version(&self) -> (r: &String)
        ensures
            r@ == self.version_view(),
    ;

    fn lts(&self) -> (r: &LtsSpec)
        ensures
            *r == self.lts_view(),
    ;
}

impl Release for NodeReleaseInfo {
    open spec fn version_view(&self) -> Seq<char> {
        self.version@
    }

    open spec fn lts_view(&self) -> LtsSpec {
        self.lts
    }

    fn version(&self) -> (r: &String) {
        &self.version
    }

    fn lts(&self) -> (r: &LtsSpec) {
        &self.lts
    }
}

/// The two lists of releases that are offered: the LTS releases, and the
/// current releases (those whose `lts` is `false`).
#[derive(Clone, Copy, Debug, PartialEq, Eq, Structural)]
pub enum Channel {
    Lts,
    Current,
}

/// A release with this `lts` belongs to the channel.
pub open spec fn in_channel(lts: LtsSpec, channel: Channel) -> bool {
    match channel {
        Channel::Lts => lts is Codename,
        Channel::Current => lts == LtsSpec::NotLts(false),
    }
}

/// The versions of the releases of `s` in `channel`, in the order of `s`.
pub open spec fn channel_versions<R: Release>(s: Seq<R>, channel: Channel) -> Seq<Seq<char>>
    decreases s.len(),
{
    if s.len() == 0 {
        Seq::empty()
    } else {
        let rest = channel_versions(s.drop_last(), channel);
        if in_channel(s.last().lts_view(), channel) {
            rest.push(s.last().version_view())
        } else {
            rest
        }
    }
}

/// The first `n` elements of `s`, or all of them where it has fewer.
pub open spec fn first_n<A>(s: Seq<A>, n: nat) -> Seq<A> {
    if n < s.len() {
        s.take(n as int)
    } else {
        s
    }
}

/// `s` made up to `n` entries with empty strings; a longer `s` unchanged.
pub open spec fn padded(s: Seq<Seq<char>>, n: nat) -> Seq<Seq<char>> {
    if s.len() >= n {
        s
    } else {
        s + Seq::new((n - s.len()) as nat, |i: int| Seq::<char>::empty())
    }
}

/// The list of `count` entries offered for a channel: its first `count`
/// versions, then empty strings where it has fewer.
pub open spec fn channel_list<R: Release>(s: Seq<R>, channel: Channel, count: nat) -> Seq<Seq<char>> {
    padded(first_n(channel_versions(s, channel), count), count)
}

/// The first version of a channel, if it has any.
pub open spec fn first_in_channel<R: Release>(s: Seq<R>, channel: Channel) -> Option<Seq<char>> {
    let v = channel_versions(s, channel);
    if v.len() > 0 {
        Some(v[0])
    } else {
        None
    }
}

/// Whether a release with this `lts` belongs to the channel.
pub fn is_in_channel(lts: &LtsSpec, channel: Channel) -> (r: bool)
    ensures
        r == in_channel(*lts, channel),
{
    match channel {
        Channel::Lts => match lts {
            LtsSpec::Codename(_) => true,
            LtsSpec::NotLts(_) => false,
        },
        Channel::Current => match lts {
            LtsSpec::Codename(_) => false,
            LtsSpec::NotLts(b) => !*b,
        },
    }
}

proof fn lemma_first_n_push<A>(s: Seq<A>, x: A, n: nat)
    ensures
        s.len() < n ==> first_n(s.push(x), n) == first_n(s, n).push(x),
        s.len() >= n ==> first_n(s.push(x), n) == first_n(s, n),
{
    if s.len() >= n {
        assert(s.push(x).take(n as int) =~= first_n(s, n));
    }
}

/// The first `count` versions of `releases` in `channel`, in order.
pub fn channel_versions_upto<R: Release>(releases: &Vec<R>, channel: Channel, count: usize) -> (r:
    Vec<String>)
    ensures
        views(r@) == first_n(channel_versions(releases@, channel), count as nat),
{
    let n = releases.len();
    let mut out: Vec<String> = Vec::new();
    let mut i: usize = 0;
    assert(releases@.take(0) =~= Seq::<R>::empty());
    assert(views(out@) =~= Seq::<Seq<char>>::empty());
    while i < n
        invariant
            n == releases@.len(),
            i <= n,
            views(out@) == first_n(channel_versions(releases@.take(i as int), channel), count as nat),
        decreases n - i,
    {
        let entry = &releases[i];
        let ghost before = channel_versions(releases@.take(i as int), channel);
        assert(releases@.take(i + 1).drop_last() =~= releases@.take(i as int));
        assert(releases@.take(i + 1).last() == releases@[i as int]);
        if is_in_channel(entry.lts(), channel) {
            proof {
                lemma_first_n_push(before, entry.version_view(), count as nat);
            }
            if out.len() < count {
                let ghost old_out = views(out@);
                out.push(entry.version().clone());
                assert(views(out@) =~= old_out.push(entry.version_view()));
            }
        }
        i = i + 1;
    }
    assert(releases@.take(n as int) =~= releases@);
    out
}

/// `list` made up to `len` entries with empty strings.
fn fill_len(list: Vec<String>, len: usize) -> (r: Vec<String>)
    ensures
        views(r@) == padded(views(list@), len as nat),
{
    let mut list = list;
    let ghost start = views(list@);
    if list.len() < len {
        let missing = len - list.len();
        let mut k: usize = 0;
        while k < missing
            invariant
                k <= missing,
                start.len() + missing == len,
                views(list@) =~= start + Seq::new(k as nat, |i: int| Seq::<char>::empty()),
            decreases missing - k,
        {
            let ghost old_list = views(list@);
            list.push(String::new());
            assert(views(list@) =~= old_list.push(Seq::<char>::empty()));
            k = k + 1;
        }
    }
    list
}

/// The `count` entries offered for `channel` among `releases`.
pub fn channel_list_of<R: Release>(releases: &Vec<R>, channel: Channel, count: usize) -> (r: Vec<
    String,
>)
    ensures
        views(r@) == channel_list(releases@, channel, count as nat),
{
    let list = channel_versions_upto(releases, channel, count);
    fill_len(list, count)
}

/// The first version of `channel` among `releases`, if any.
pub fn first_of_channel<R: Release>(releases: &Vec<R>, channel: Channel) -> (r: Option<String>)
    ensures
        r is Some ==> first_in_channel(releases@, channel) == Some(r->0@),
        r is None ==> first_in_channel(releases@, channel) is None,
{
    let one = channel_versions_upto(releases, channel, 1);
    if one.len() == 0 {
        assert(views(one@).len() == 0);
        None
    } else {
        let v = one[0].clone();
        let ghost cv = channel_versions(releases@, channel);
        assert(views(one@)[0] == one@[0]@);
        assert(cv.len() > 0);
        assert(first_n(cv, 1)[0] == cv[0]);
        Some(v)
    }
}


/// The versions of `s` that begin with `prefix`, in the order of `s`.
pub open spec fn prefixed_versions<R: Release>(s: Seq<R>, prefix: Seq<char>) -> Seq<Seq<char>>
    decreases s.len(),
{
    if s.len() == 0 {
        Seq::empty()
    } else {
        let rest = prefixed_versions(s.drop_last(), prefix);
        if has_prefix(s.last().version_view(), prefix) {
            rest.push(s.last().version_view())
        } else {
            rest
        }
    }
}

/// The versions among `releases` that begin with `prefix`.
pub fn versions_with_prefix<R: Release>(releases: &Vec<R>, prefix: &str) -> (r: Vec<String>)
    ensures
        views(r@) == prefixed_versions(releases@, prefix@),
{
    let n = releases.len();
    let mut out: Vec<String> = Vec::new();
    let mut i: usize = 0;
    assert(releases@.take(0) =~= Seq::<R>::empty());
    assert(views(out@) =~= Seq::<Seq<char>>::empty());
    while i < n
        invariant
            n == releases@.len(),
            i <= n,
            views(out@) == prefixed_versions(releases@.take(i as int), prefix@),
        decreases n - i,
    {
        let entry = &releases[i];
        assert(releases@.take(i + 1).drop_last() =~= releases@.take(i as int));
        assert(releases@.take(i + 1).last() == releases@[i as int]);
        let version = entry.version();
        if starts_with(version.as_str(), prefix) {
            let ghost old_out = views(out@);
            out.push(version.clone());
            assert(views(out@) =~= old_out.push(entry.version_view()));
        }
        i = i + 1;
    }
    assert(releases@.take(n as int) =~= releases@);
    out
}

/// A version as it is looked up: with a leading `v`, added where it is missing.
pub open spec fn normalized_version(v: Seq<char>) -> Seq<char> {
    if v.len() > 0 && v[0] == 'v' {
        v
    } else {
        seq!['v'] + v
    }
}

/// Some release of `s` has exactly the version `v`.
pub open spec fn has_version<R: Release>(s: Seq<R>, v: Seq<char>) -> bool {
    exists|i: int| 0 <= i < s.len() && #[trigger] s[i].version_view() == v
}

/// The prefix that the versions of a major release line begin with: `v`, the
/// major number in decimal, and the `.` that ends the major component.
pub open spec fn major_prefix(major: u64) -> Seq<char> {
    seq!['v'] + decimal(major as nat) + seq!['.']
}

/// `v` followed by `rest`.
fn prefixed_with_v(rest: &str) -> (r: String)
    ensures
        r@ == seq!['v'] + rest@,
{
    let v = "v";
    proof {
        reveal_strlit("v");
        assert(v@ =~= seq!['v']);
    }
    String::from_str(v).concat(rest)
}

/// The releases of Node.js, newest first, as the release index lists them.
#[derive(Debug)]
pub struct ReleaseDatabase {
    inner: Vec<NodeReleaseInfo>,
}

impl View for ReleaseDatabase {
    type V = Seq<NodeReleaseInfo>;

    closed spec fn view(&self) -> Seq<NodeReleaseInfo> {
        self.inner@
    }
}

impl std::ops::Deref for ReleaseDatabase {
    type Target = Vec<NodeReleaseInfo>;

    fn deref(&self) -> (r: &Vec<NodeReleaseInfo>)
        ensures
            r@ == self@,
    {
        &self.inner
    }
}

impl ReleaseDatabase {
    /// A database of the given releases, in the given order.
    pub fn new(inner: Vec<NodeReleaseInfo>) -> (r: ReleaseDatabase)
        ensures
            r@ == inner@,
    {
        ReleaseDatabase { inner }
    }

    /// The newest version: that of the first release, if there is one.
    pub fn latest(&self) -> (r: Option<String>)
        ensures
            r is Some <==> self@.len() > 0,
            r is Some ==> r->0@ == self@[0].version@,
    {
        if self.inner.len() == 0 {
            None
        } else {
            Some(self.inner[0].version.clone())
        }
    }

    /// The newest LTS version: that of the first LTS release, if there is one.
    pub fn latest_lts(&self) -> (r: Option<String>)
        ensures
            r is Some ==> first_in_channel(self@, Channel::Lts) == Some(r->0@),
            r is None ==> first_in_channel(self@, Channel::Lts) is None,
    {
        first_of_channel(&self.inner, Channel::Lts)
    }

    /// Whether a release has the given version; a version without its leading
    /// `v` is looked up with it.
    pub fn version_exists(&self, version: &str) -> (r: bool)
        ensures
            r == has_version(self@, normalized_version(version@)),
    {
        let wanted = if starts_with_char(version, 'v') {
            String::from_str(version)
        } else {
            prefixed_with_v(version)
        };
        let n = self.inner.len();
        let mut i: usize = 0;
        while i < n
            invariant
                n == self@.len(),
                i <= n,
                wanted@ == normalized_version(version@),
                forall|j: int| 0 <= j < i ==> self@[j].version@ != wanted@,
            decreases n - i,
        {
            if self.inner[i].version == wanted {
                assert(self@[i as int].version_view() == wanted@);
                return true;
            }
            i = i + 1;
        }
        assert forall|j: int| 0 <= j < self@.len() implies #[trigger] self@[j].version_view()
            != wanted@ by {}
        false
    }

    /// All versions of the major release line `major`: those whose major
    /// component is `major` (they begin with `v`, its number and a `.`), in
    /// order, made up to `len` entries with empty strings.
    pub fn by_major(&self, major: u64, len: usize) -> (r: Vec<String>)
        ensures
            views(r@) == padded(prefixed_versions(self@, major_prefix(major)), len as nat),
    {
        let mut prefix = prefixed_with_v(decimal_string(major).as_str());
        let dot = ".";
        proof {
            reveal_strlit(".");
            assert(dot@ =~= seq!['.']);
        }
        prefix.append(dot);
        let list = versions_with_prefix(&self.inner, prefix.as_str());
        fill_len(list, len)
    }

    /// The `count` newest current (non-LTS) versions, made up to `count`
    /// entries with empty strings.
    pub fn latest_list(&self, count: usize) -> (r: Vec<String>)
        ensures
            views(r@) == channel_list(self@, Channel::Current, count as nat),
    {
        channel_list_of(&self.inner, Channel::Current, count)
    }

    /// The `count` newest LTS versions, made up to `count` entries with empty
    /// strings.
    pub fn lts_list(&self, count: usize) -> (r: Vec<String>)
        ensures
            views(r@) == channel_list(self@, Channel::Lts, count as nat),
    {
        channel_list_of(&self.inner, Channel::Lts, count)
    }
}


/// Filling a list up to `n` entries twice is filling it once, and a list that
/// already has `n` entries or more is left as it is.
pub proof fn lemma_padded_idempotent(s: Seq<Seq<char>>, n: nat)
    ensures
        padded(padded(s, n), n) == padded(s, n),
        n <= s.len() ==> padded(s, n) == s,
        padded(s, n).len() == if s.len() >= n { s.len() } else { n },
        padded(s, n).take(s.len() as int) == s,
{
    assert(padded(s, n).take(s.len() as int) =~= s);
}

/// A list offered for a channel always has exactly the `count` entries asked for.
pub proof fn lemma_channel_list_len<R: Release>(s: Seq<R>, channel: Channel, count: nat)
    ensures
        channel_list(s, channel, count).len() == count,
{
}

/// Entry `i` of a list offered for a channel is the channel's `i`-th version,
/// or the empty string past the channel's last version.
pub proof fn lemma_channel_list_entry<R: Release>(s: Seq<R>, channel: Channel, count: nat, i: int)
    requires
        0 <= i < count,
    ensures
        i < channel_versions(s, channel).len() ==> channel_list(s, channel, count)[i]
            == channel_versions(s, channel)[i],
        i >= channel_versions(s, channel).len() ==> channel_list(s, channel, count)[i]
            == Seq::<char>::empty(),
{
}

/// Asking for fewer entries gives the beginning of the longer list.
pub proof fn lemma_channel_list_prefix<R: Release>(s: Seq<R>, channel: Channel, n: nat, m: nat)
    requires
        n <= m,
    ensures
        channel_list(s, channel, m).take(n as int) == channel_list(s, channel, n),
{
    assert(channel_list(s, channel, m).take(n as int) =~= channel_list(s, channel, n));
}

/// The first version of a channel is the single entry of its list of one; the
/// list holds the empty string where the channel has no version.
pub proof fn lemma_first_heads_list<R: Release>(s: Seq<R>, channel: Channel)
    ensures
        channel_list(s, channel, 1) == seq![
            match first_in_channel(s, channel) {
                Some(v) => v,
                None => Seq::<char>::empty(),
            },
        ],
{
    assert(channel_list(s, channel, 1) =~= seq![
        match first_in_channel(s, channel) {
            Some(v) => v,
            None => Seq::<char>::empty(),
        },
    ]);
}

/// Every version that a channel lists is that of a release of `s` in the
/// channel, and the channel keeps the order of `s`.
pub proof fn lemma_channel_versions_sound<R: Release>(s: Seq<R>, channel: Channel, k: int)
    requires
        0 <= k < channel_versions(s, channel).len(),
    ensures
        exists|j: int|
            0 <= j < s.len() && in_channel(s[j].lts_view(), channel) && #[trigger] s[j].version_view()
                == channel_versions(s, channel)[k],
    decreases s.len(),
{
    let rest = channel_versions(s.drop_last(), channel);
    if k < rest.len() {
        lemma_channel_versions_sound(s.drop_last(), channel, k);
        let j = choose|j: int|
            0 <= j < s.drop_last().len() && in_channel(s.drop_last()[j].lts_view(), channel)
                && #[trigger] s.drop_last()[j].version_view() == rest[k];
        assert(s[j] == s.drop_last()[j]);
    } else {
        assert(s[s.len() - 1] == s.last());
    }
}

/// Every version listed for a major line begins with its prefix and is that
/// of a release of `s`.
pub proof fn lemma_prefixed_versions_sound<R: Release>(s: Seq<R>, prefix: Seq<char>, k: int)
    requires
        0 <= k < prefixed_versions(s, prefix).len(),
    ensures
        has_prefix(prefixed_versions(s, prefix)[k], prefix),
        has_version(s, prefixed_versions(s, prefix)[k]),
    decreases s.len(),
{
    let rest = prefixed_versions(s.drop_last(), prefix);
    if k < rest.len() {
        lemma_prefixed_versions_sound(s.drop_last(), prefix, k);
        let j = choose|j: int|
            0 <= j < s.drop_last().len() && #[trigger] s.drop_last()[j].version_view() == rest[k];
        assert(s[j] == s.drop_last()[j]);
    } else {
        assert(s[s.len() - 1] == s.last());
    }
}

/// Whether a release belongs to a channel, read off its `lts` field: an LTS
/// release has a codename, a current release has `lts` equal to `false`.
pub open spec fn channel_member<R: Release>(channel: Channel) -> spec_fn(R) -> bool {
    |r: R|
        match channel {
            Channel::Lts => r.lts_view() is Codename,
            Channel::Current => r.lts_view() == LtsSpec::NotLts(false),
        }
}

/// The version of a release.
pub open spec fn version_of<R: Release>() -> spec_fn(R) -> Seq<char> {
    |r: R| r.version_view()
}

/// Whether the version of a release begins with `prefix`.
pub open spec fn version_begins_with<R: Release>(prefix: Seq<char>) -> spec_fn(R) -> bool {
    |r: R| prefix.is_prefix_of(r.version_view())
}

/// The versions of a channel are those of exactly the releases of `s` in the
/// channel, all of them, in the order of `s`.
pub proof fn lemma_channel_versions_complete<R: Release>(s: Seq<R>, channel: Channel)
    ensures
        channel_versions(s, channel) == s.filter(channel_member::<R>(channel)).map_values(
            version_of::<R>(),
        ),
        channel_versions(s, channel).len() == s.filter(channel_member::<R>(channel)).len(),
    decreases s.len(),
{
    reveal(Seq::filter);
    if s.len() > 0 {
        lemma_channel_versions_complete(s.drop_last(), channel);
        let p = channel_member::<R>(channel);
        let prev = s.drop_last().filter(p);
        if p(s.last()) {
            assert(s.filter(p) == prev.push(s.last()));
            assert(s.filter(p).map_values(version_of::<R>()) =~= prev.map_values(version_of::<R>()).push(
                s.last().version_view(),
            ));
        } else {
            assert(s.filter(p) == prev);
        }
    } else {
        assert(s.filter(channel_member::<R>(channel)).map_values(version_of::<R>()) =~= Seq::<
            Seq<char>,
        >::empty());
    }
}

/// Entry `i` of the list of `count` entries offered for a channel is the
/// version of the `i`-th release of `s` in the channel, counting every such
/// release, or the empty string where the channel has fewer than `i + 1`.
pub proof fn lemma_channel_list_complete<R: Release>(s: Seq<R>, channel: Channel, count: nat, i: int)
    requires
        0 <= i < count,
    ensures
        channel_list(s, channel, count).len() == count,
        i < s.filter(channel_member::<R>(channel)).len() ==> channel_list(s, channel, count)[i]
            == s.filter(channel_member::<R>(channel))[i].version_view(),
        i >= s.filter(channel_member::<R>(channel)).len() ==> channel_list(s, channel, count)[i]
            == Seq::<char>::empty(),
{
    lemma_channel_versions_complete(s, channel);
    lemma_channel_list_entry(s, channel, count, i);
}

/// The versions of a major line are those of exactly the releases of `s` whose
/// version begins with the prefix, all of them, in the order of `s`.
pub proof fn lemma_prefixed_versions_complete<R: Release>(s: Seq<R>, prefix: Seq<char>)
    ensures
        prefixed_versions(s, prefix) == s.filter(version_begins_with::<R>(prefix)).map_values(
            version_of::<R>(),
        ),
        prefixed_versions(s, prefix).len() == s.filter(version_begins_with::<R>(prefix)).len(),
    decreases s.len(),
{
    reveal(Seq::filter);
    if s.len() > 0 {
        lemma_prefixed_versions_complete(s.drop_last(), prefix);
        let p = version_begins_with::<R>(prefix);
        let prev = s.drop_last().filter(p);
        if p(s.last()) {
            assert(s.filter(p) == prev.push(s.last()));
            assert(s.filter(p).map_values(version_of::<R>()) =~= prev.map_values(version_of::<R>()).push(
                s.last().version_view(),
            ));
        } else {
            assert(s.filter(p) == prev);
        }
    } else {
        assert(s.filter(version_begins_with::<R>(prefix)).map_values(version_of::<R>()) =~= Seq::<
            Seq<char>,
        >::empty());
    }
}

/// A version without its leading `v` is looked up as the same version with it.
pub proof fn lemma_lookup_ignores_leading_v<R: Release>(s: Seq<R>, v: Seq<char>)
    requires
        !(v.len() > 0 && v[0] == 'v'),
    ensures
        has_version(s, normalized_version(v)) == has_version(s, normalized_version(seq!['v'] + v)),
{
    assert((seq!['v'] + v)[0] == 'v');
}

/// Every release whose version begins with `v` is found by its version.
pub proof fn lemma_release_found<R: Release>(s: Seq<R>, i: int)
    requires
        0 <= i < s.len(),
        s[i].version_view().len() > 0,
        s[i].version_view()[0] == 'v',
    ensures
        has_version(s, normalized_version(s[i].version_view())),
{
}


impl ArchSpec {
    /// The name of the architecture: its number of bits.
    pub fn to_string(&self) -> (r: String)
        ensures
            r@ == match self {
                ArchSpec::X86 => "32"@,
                ArchSpec::X64 => "64"@,
            },
    {
        match self {
            ArchSpec::X86 => String::from_str("32"),
            ArchSpec::X64 => String::from_str("64"),
        }
    }
}

/// The version named on the command line.
#[derive(Clone, Debug)]
pub enum VersionSpec {
    /// Latest LTS version
    Lts,
    /// Latest version
    Latest,
    /// Newest installed version (`nvm use newest`)
    Newest,
    /// The version in use, switched to another architecture (`nvm use 32`,
    /// `nvm use 64`)
    Arch(ArchSpec),
    /// Exact version, with a leading `v`.
    Exact(String),
}

/// `r` is what the command-line argument `s`, of lower-case form `lower`,
/// names: `lts`, `latest`, `newest`, an architecture `32` or `64`, or a
/// semantic version as an exact version behind a `v`; any other text is refused
/// with the message that names the possible values.
pub open spec fn names_version(s: Seq<char>, lower: Seq<char>, r: Result<VersionSpec, String>) -> bool {
    if lower == "lts"@ {
        r matches Ok(VersionSpec::Lts)
    } else if lower == "latest"@ {
        r matches Ok(VersionSpec::Latest)
    } else if lower == "newest"@ {
        r matches Ok(VersionSpec::Newest)
    } else if lower == "32"@ {
        r matches Ok(VersionSpec::Arch(ArchSpec::X86))
    } else if lower == "64"@ {
        r matches Ok(VersionSpec::Arch(ArchSpec::X64))
    } else if semver_parse(lower) is Some {
        r matches Ok(VersionSpec::Exact(v)) && v@ == seq!['v'] + lower
    } else {
        r matches Err(e) && e@ == invalid_message(s)
    }
}

impl VersionSpec {
    /// The exact version `v` followed by `lower` where `lower` parsed as a
    /// semantic version (`parsed` is that parse), else the message that
    /// refuses the argument `s`.
    pub fn from_parsed(s: &str, lower: &str, parsed: Option<SemVer>) -> (r: Result<VersionSpec, String>)
        ensures
            parsed is Some ==> (r matches Ok(VersionSpec::Exact(v)) && v@ == seq!['v'] + lower@),
            parsed is None ==> (r matches Err(e) && e@ == invalid_message(s@)),
    {
        match parsed {
            Some(_) => Ok(VersionSpec::Exact(prefixed_with_v(lower))),
            None => Err(refusal(s)),
        }
    }

    /// What the argument `s` names, given its lower-case form `lower`.
    pub fn from_lowercase(s: &str, lower: &str) -> (r: Result<VersionSpec, String>)
        ensures
            names_version(s@, lower@, r),
    {
        let l = String::from_str(lower);
        if l == String::from_str("lts") {
            Ok(VersionSpec::Lts)
        } else if l == String::from_str("latest") {
            Ok(VersionSpec::Latest)
        } else if l == String::from_str("newest") {
            Ok(VersionSpec::Newest)
        } else if l == String::from_str("32") {
            Ok(VersionSpec::Arch(ArchSpec::X86))
        } else if l == String::from_str("64") {
            Ok(VersionSpec::Arch(ArchSpec::X64))
        } else {
            let parsed = parse_semver(lower);
            VersionSpec::from_parsed(s, lower, parsed)
        }
    }

    /// What a command-line argument names, in any case: `lts`, `latest`,
    /// `newest`, an architecture (`32` or `64`) or a semantic version; any
    /// other text is refused with a message.
    pub fn parse(s: &str) -> (r: Result<VersionSpec, String>)
        ensures
            names_version(s@, lowercase(s@), r),
    {
        let lower = to_lowercase(s);
        VersionSpec::from_lowercase(s, lower.as_str())
    }
}

impl std::str::FromStr for VersionSpec {
    type Err = String;

    fn from_str(s: &str) -> (r: Result<Self, Self::Err>)
        ensures
            names_version(s@, lowercase(s@), r),
    {
        VersionSpec::parse(s)
    }
}

/// The configuration of the version manager.
#[derive(Clone, Debug)]
pub struct Config {
    /// Node.js storage root.
    pub root: Option<String>,
    /// Node.js proxy.
    pub proxy: Option<String>,
    /// Node.js mirror.
    pub node_mirror: Option<String>,
    /// npm mirror.
    pub npm_mirror: Option<String>,
    pub arch: Option<ArchSpec>,
    pub originalpath: Option<String>,
    pub originalversion: Option<String>,
}

/// The configuration with no field set.
pub open spec fn default_config() -> Config {
    Config {
        root: None,
        proxy: None,
        node_mirror: None,
        npm_mirror: None,
        arch: None,
        originalpath: None,
        originalversion: None,
    }
}

impl Default for Config {
    fn default() -> (r: Config)
        ensures
            r == default_config(),
    {
        Config {
            root: None,
            proxy: None,
            node_mirror: None,
            npm_mirror: None,
            arch: None,
            originalpath: None,
            originalversion: None,
        }
    }
}

/// `r` is a result of `load` with these reads: one of the values that the
/// reads can return, taken in order, or the default where both gave nothing.
pub open spec fn load_result<F: FnOnce() -> Option<Config>, G: FnOnce() -> Option<Config>>(
    read_toml: F,
    read_txt: G,
    r: Config,
) -> bool {
    ||| read_toml.ensures((), Some(r))
    ||| read_toml.ensures((), None) && read_txt.ensures((), Some(r))
    ||| read_toml.ensures((), None) && read_txt.ensures((), None) && r == default_config()
}

/// Why a configuration is refused.
#[derive(Clone, Copy, Debug, PartialEq, Eq, Structural)]
pub enum ConfigError {
    RootNotDirectory,
    OriginalPathNotDirectory,
}

impl ConfigError {
    /// The message that reports the error.
    pub fn message(&self) -> (r: String)
        ensures
            r@ == match self {
                ConfigError::RootNotDirectory => "root is not a directory"@,
                ConfigError::OriginalPathNotDirectory => "originalpath is not a directory"@,
            },
    {
        match self {
            ConfigError::RootNotDirectory => String::from_str("root is not a directory"),
            ConfigError::OriginalPathNotDirectory => String::from_str(
                "originalpath is not a directory",
            ),
        }
    }
}

/// The formats of configuration file that are compiled in.
#[derive(Clone, Copy, Debug, PartialEq, Eq, Structural)]
pub struct Formats {
    pub toml: bool,
    pub yaml: bool,
}

/// A format of configuration file.
#[derive(Clone, Copy, Debug, PartialEq, Eq, Structural)]
pub enum ConfigFormat {
    /// TOML, in `settings.toml`.
    Toml,
    /// YAML, in `settings.txt`.
    Txt,
}

/// The settings file of a format, which lies next to the program: the file
/// that a configuration in that format is both read from and saved to.
pub open spec fn config_file(format: ConfigFormat) -> Seq<char> {
    match format {
        ConfigFormat::Toml => "settings.toml"@,
        ConfigFormat::Txt => "settings.txt"@,
    }
}

impl ConfigFormat {
    /// The name of the settings file of this format, next to the program.
    pub fn file_name(&self) -> (r: String)
        ensures
            r@ == config_file(*self),
    {
        match self {
            ConfigFormat::Toml => String::from_str("settings.toml"),
            ConfigFormat::Txt => String::from_str("settings.txt"),
        }
    }
}

/// The format that a configuration is saved in: TOML where it is compiled in,
/// else YAML where that is, else none.
pub open spec fn save_format(formats: Formats) -> Option<ConfigFormat> {
    if formats.toml {
        Some(ConfigFormat::Toml)
    } else if formats.yaml {
        Some(ConfigFormat::Txt)
    } else {
        None
    }
}

/// The file that `Config::save` writes with the formats compiled in, if any.
pub open spec fn saved_file(formats: Formats) -> Option<Seq<char>> {
    match save_format(formats) {
        Some(f) => Some(config_file(f)),
        None => None,
    }
}

/// The first file that `Config::load` reads with the formats compiled in: that
/// of TOML where it is compiled in, else that of YAML where that is.
pub open spec fn first_loaded_file(formats: Formats) -> Option<Seq<char>> {
    if formats.toml {
        Some(config_file(ConfigFormat::Toml))
    } else if formats.yaml {
        Some(config_file(ConfigFormat::Txt))
    } else {
        None
    }
}

/// Where and how a configuration is saved.
#[derive(Clone, Debug)]
pub struct SaveTarget {
    pub format: ConfigFormat,
    pub file: String,
}

/// Where and how `Config::save` writes the configuration, with the formats that
/// are compiled in: the settings file of TOML where it is compiled in, else
/// that of YAML; `None` where no format is, and nothing is written.
pub fn save_target(formats: Formats) -> (r: Option<SaveTarget>)
    ensures
        r is None <==> save_format(formats) is None,
        r is Some ==> save_format(formats) == Some(r->0.format) && r->0.file@ == config_file(
            r->0.format,
        ),
{
    let format = if formats.toml {
        ConfigFormat::Toml
    } else if formats.yaml {
        ConfigFormat::Txt
    } else {
        return None;
    };
    let file = format.file_name();
    Some(SaveTarget { format, file })
}

/// `Config::save` writes the very file that `Config::load` reads first.
pub proof fn lemma_save_writes_first_loaded_file(formats: Formats)
    ensures
        saved_file(formats) == first_loaded_file(formats),
{
}

impl Config {
    /// Loads the configuration: from the TOML file where `read_toml` gives one,
    /// else from the text file where `read_txt` gives one, else the default.
    /// `read_txt` is called only where `read_toml` gave nothing. A read gives
    /// nothing where its format is not compiled in or its file cannot be read.
    pub fn load<F: FnOnce() -> Option<Config>, G: FnOnce() -> Option<Config>>(
        read_toml: F,
        read_txt: G,
    ) -> (r: Config)
        requires
            read_toml.requires(()),
            forall|x: Option<Config>| read_toml.ensures((), x) && x is None ==> read_txt.requires(()),
        ensures
            load_result(read_toml, read_txt, r),
    {
        match read_toml() {
            Some(c) => c,
            None => match read_txt() {
                Some(c) => c,
                None => Config::default(),
            },
        }
    }

    /// Checks the configuration: its `root`, where set, must be a directory,
    /// and so must its `originalpath`. `root_is_dir` and `originalpath_is_dir`
    /// tell whether the paths set are directories.
    pub fn is_valid(&self, root_is_dir: bool, originalpath_is_dir: bool) -> (r: Result<(), ConfigError>)
        ensures
            r == (if self.root is Some && !root_is_dir {
                Err(ConfigError::RootNotDirectory)
            } else if self.originalpath is Some && !originalpath_is_dir {
                Err(ConfigError::OriginalPathNotDirectory)
            } else {
                Ok(())
            }),
    {
        if self.root.is_some() && !root_is_dir {
            return Err(ConfigError::RootNotDirectory);
        }
        if self.originalpath.is_some() && !originalpath_is_dir {
            return Err(ConfigError::OriginalPathNotDirectory);
        }
        Ok(())
    }
}

/// A configuration saved by `Config::save` is the one that `load` gives back:
/// `save` writes the format that `load` reads first. Where the file of the
/// format that `save_target` picks reads back as `c`, and a read of TOML gives
/// nothing where TOML is not compiled in, every result of `load` is `c`.
pub proof fn lemma_load_reads_saved_format<F: FnOnce() -> Option<Config>, G: FnOnce() -> Option<
    Config,
>>(formats: Formats, read_toml: F, read_txt: G, c: Config, r: Config)
    requires
        save_format(formats) is Some,
        save_format(formats) == Some(ConfigFormat::Toml) ==> forall|x: Option<Config>|
            #[trigger] read_toml.ensures((), x) ==> x == Some(c),
        save_format(formats) == Some(ConfigFormat::Txt) ==> forall|x: Option<Config>|
            #[trigger] read_txt.ensures((), x) ==> x == Some(c),
        !formats.toml ==> forall|x: Option<Config>| #[trigger] read_toml.ensures((), x) ==> x is None,
        load_result(read_toml, read_txt, r),
    ensures
        r == c,
{
    if read_toml.ensures((), Some(r)) {
    } else if read_toml.ensures((), None) && read_txt.ensures((), Some(r)) {
    } else {
        assert(read_txt.ensures((), None));
    }
}

/// The proxy setting as it is read: an empty value, `null` and `none` (in any
/// ASCII case) mean no proxy.
pub open spec fn proxy_setting(s: Seq<char>) -> Option<Seq<char>> {
    if s.len() == 0 || ascii_case_insensitive_eq(s, "null"@) || ascii_case_insensitive_eq(s, "none"@) {
        None
    } else {
        Some(s)
    }
}

/// The proxy that a setting names; `None` for an empty value, `null` or `none`.
pub fn proxy_from_setting(s: String) -> (r: Option<String>)
    ensures
        match r {
            Some(p) => proxy_setting(s@) == Some(p@),
            None => proxy_setting(s@) is None,
        },
{
    if s.as_str().unicode_len() == 0 || eq_ignore_ascii_case(s.as_str(), "null")
        || eq_ignore_ascii_case(s.as_str(), "none") {
        None
    } else {
        Some(s)
    }
}

} // verus!
