//! The release index as the download tool reads it: each release with the
//! files that are built for it.

use vstd::prelude::*;
use crate::model::{
    channel_list, channel_list_of, first_in_channel, first_of_channel, lemma_first_heads_list, Channel,
    Release,
};
use crate::text::views;
use vstd::std_specs::iter::IteratorSpec;

pub use crate::model::LtsSpec;

verus! {

/// Release information of one Node.js version.
#[derive(Clone, Debug)]
pub struct NodeReleaseInfo {
    /// The version, such as "v26.8.1".
    pub version: String,
    /// The builds and platforms that are available.
    pub files: Vec<String>,
    /// Whether the release belongs to an LTS line.
    pub lts: LtsSpec,
}

impl Release for NodeReleaseInfo {
    open spec fn version_view(&self) -> Seq<char> {
        self.version@
    }

    open spec fn lts_view(&self) -> LtsSpec {
        self.lts
    }

    fn version(&self) -> (r: &String) {
        &self.version
    }

    fn lts(&self) -> (r: &LtsSpec) {
        &self.lts
    }
}

/// The first version of a channel, or the empty string where it has none.
pub open spec fn first_or_empty(s: Seq<NodeReleaseInfo>, channel: Channel) -> Seq<char> {
    match first_in_channel(s, channel) {
        Some(v) => v,
        None => Seq::empty(),
    }
}

/// The releases of Node.js, newest first.
#[derive(Debug)]
pub struct Releases {
    inner: Vec<NodeReleaseInfo>,
}

impl View for Releases {
    type V = Seq<NodeReleaseInfo>;

    closed spec fn view(&self) -> Seq<NodeReleaseInfo> {
        self.inner@
    }
}

impl std::ops::Deref for Releases {
    type Target = Vec<NodeReleaseInfo>;

    fn deref(&self) -> (r: &Vec<NodeReleaseInfo>)
        ensures
            r@ == self@,
    {
        &self.inner
    }
}

impl IntoIterator for Releases {
    type Item = NodeReleaseInfo;

    type IntoIter = std::vec::IntoIter<NodeReleaseInfo>;

    fn into_iter(self) -> (r: std::vec::IntoIter<NodeReleaseInfo>)
        ensures
            IteratorSpec::remaining(&r) == self@,
    {
        proof {
            broadcast use vstd::std_specs::vec::axiom_spec_into_iter;
        }
        self.inner.into_iter()
    }
}

impl Releases {
    /// The given releases, in the given order.
    pub fn new(inner: Vec<NodeReleaseInfo>) -> (r: Releases)
        ensures
            r@ == inner@,
    {
        Releases { inner }
    }

    /// The newest version: that of the first release.
    pub fn latest(&self) -> (r: String)
        requires
            self@.len() > 0,
        ensures
            r@ == self@[0].version@,
    {
        self.inner[0].version.clone()
    }

    /// The newest LTS version, or the empty string where there is none.
    pub fn latest_lts(&self) -> (r: String)
        ensures
            r@ == first_or_empty(self@, Channel::Lts),
    {
        match first_of_channel(&self.inner, Channel::Lts) {
            Some(v) => v,
            None => String::new(),
        }
    }

    /// The `count` newest current (non-LTS) versions, made up to `count`
    /// entries with empty strings.
    pub fn latest_list(&self, count: usize) -> (r: Vec<String>)
        ensures
            views(r@) == channel_list(self@, Channel::Current, count as nat),
    {
        channel_list_of(&self.inner, Channel::Current, count)
    }

    /// The `count` newest LTS versions, made up to `count` entries with empty
    /// strings.
    pub fn lts_list(&self, count: usize) -> (r: Vec<String>)
        ensures
            views(r@) == channel_list(self@, Channel::Lts, count as nat),
    {
        channel_list_of(&self.inner, Channel::Lts, count)
    }
}


/// The newest LTS version is the single entry of the list of one LTS version:
/// `latest_lts()` equals `lts_list(1)[0]`, the empty string included.
pub proof fn lemma_latest_lts_heads_lts_list(s: Seq<NodeReleaseInfo>)
    ensures
        channel_list(s, Channel::Lts, 1) == seq![first_or_empty(s, Channel::Lts)],
{
    lemma_first_heads_list(s, Channel::Lts);
}

} // verus!
