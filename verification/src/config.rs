//! The configured sources: groups of source names, read from JSON text.

use crate::error::Describe;
use crate::text::names;
use std::collections::BTreeMap;
use vstd::prelude::*;
use vstd::string::StringExecFns;

verus! {

#[verifier::external_type_specification]
#[verifier::external_body]
pub struct ExJsonError(serde_json::Error);

/// A named group of sources.
#[derive(Debug, PartialEq, Eq)]
pub struct SourceGroup {
    pub name: String,
    /// The names of the group's sources, in the order of the configuration.
    pub sources: Vec<String>,
}

/// What a [`SourceGroup`] holds, as mathematical values.
pub struct GroupView {
    pub name: Seq<char>,
    pub sources: Seq<Seq<char>>,
}

impl View for SourceGroup {
    type V = GroupView;

    open spec fn view(&self) -> GroupView {
        GroupView { name: self.name@, sources: names(self.sources@) }
    }
}

/// The views of a sequence of groups, in order.
pub open spec fn group_views(groups: Seq<SourceGroup>) -> Seq<GroupView> {
    groups.map_values(|g: SourceGroup| g@)
}

/// The configuration of sources: every group, ordered by the group's name.
#[derive(Debug, PartialEq, Eq)]
pub struct SourceConfig {
    pub groups: Vec<SourceGroup>,
}

impl View for SourceConfig {
    type V = Seq<GroupView>;

    open spec fn view(&self) -> Seq<GroupView> {
        group_views(self.groups@)
    }
}

/// A configuration text that could not be taken.
#[derive(Debug, PartialEq, Eq)]
pub enum ConfigError {
    /// The text is no JSON object of string lists; `reason` is the parser's.
    Malformed { reason: String },
}

impl Describe for ConfigError {
    open spec fn text(&self) -> Seq<char> {
        match self {
            ConfigError::Malformed { reason } => "failed to deserialize sources: "@ + reason@,
        }
    }

    fn describe(&self) -> (words: String) {
        match self {
            ConfigError::Malformed { reason } => {
                let mut words = String::from_str("failed to deserialize sources: ");
                words.append(reason.as_str());
                words
            },
        }
    }
}

/// The groups that `serde_json` reads from `text` as a JSON object whose
/// values are lists of strings, ordered by name, or `None` where `text` is
/// no such object.
pub uninterp spec fn json_groups(text: Seq<char>) -> Option<Seq<GroupView>>;

/// `serde_json::from_str` into a map ordered by key, handed on as groups in
/// that order.
#[verifier::external_body]
fn read_groups(text: &str) -> (read: Result<Vec<SourceGroup>, serde_json::Error>)
    ensures
        match read {
            Ok(groups) => json_groups(text@) == Some(group_views(groups@)),
            Err(_) => json_groups(text@) is None,
        },
{
    match serde_json::from_str::<BTreeMap<String, Vec<String>>>(text) {
        Ok(map) => Ok(
            map.into_iter().map(|(name, sources)| SourceGroup { name, sources }).collect(),
        ),
        Err(e) => Err(e),
    }
}

/// The `Display` text of a `serde_json::Error`.
#[verifier::external_body]
fn json_error_text(error: &serde_json::Error) -> String {
    error.to_string()
}

/// The source names of all groups, group after group.
pub open spec fn flattened(groups: Seq<GroupView>) -> Seq<Seq<char>>
    decreases groups.len(),
{
    if groups.len() == 0 {
        Seq::empty()
    } else {
        flattened(groups.drop_last()) + groups.last().sources
    }
}

/// `all` without repetitions: each name once, where it stands first.
pub open spec fn distinct(all: Seq<Seq<char>>) -> Seq<Seq<char>>
    decreases all.len(),
{
    if all.len() == 0 {
        Seq::empty()
    } else if distinct(all.drop_last()).contains(all.last()) {
        distinct(all.drop_last())
    } else {
        distinct(all.drop_last()).push(all.last())
    }
}

/// `distinct` keeps exactly the names that occur and repeats none.
pub proof fn lemma_distinct(all: Seq<Seq<char>>)
    ensures
        distinct(all).no_duplicates(),
        forall|name: Seq<char>| distinct(all).contains(name) <==> all.contains(name),
    decreases all.len(),
{
    if all.len() > 0 {
        let rest = all.drop_last();
        let last = all.last();
        lemma_distinct(rest);
        assert forall|name: Seq<char>| distinct(all).contains(name) <==> all.contains(
            name,
        ) by {
            if all.contains(name) {
                let i = choose|i: int| 0 <= i < all.len() && all[i] == name;
                if i < rest.len() {
                    assert(rest[i] == name);
                    assert(rest.contains(name));
                    assert(distinct(rest).contains(name));
                    let k = choose|k: int|
                        0 <= k < distinct(rest).len() && distinct(rest)[k] == name;
                    assert(distinct(all)[k] == name);
                } else {
                    assert(name == last);
                    if !distinct(rest).contains(last) {
                        assert(distinct(all)[distinct(all).len() - 1] == last);
                    }
                }
            }
            if distinct(all).contains(name) {
                let k = choose|k: int| 0 <= k < distinct(all).len() && distinct(all)[k] == name;
                if k < distinct(rest).len() {
                    assert(distinct(rest)[k] == name);
                    assert(distinct(rest).contains(name));
                    assert(rest.contains(name));
                    let i = choose|i: int| 0 <= i < rest.len() && rest[i] == name;
                    assert(all[i] == name);
                } else {
                    assert(name == last);
                    assert(all[all.len() - 1] == name);
                }
            }
        }
    }
}

/// Whether `list` holds `name`.
pub fn holds_name(list: &Vec<String>, name: &String) -> (found: bool)
    ensures
        found == names(list@).contains(name@),
{
    let mut i: usize = 0;
    while i < list.len()
        invariant
            i <= list.len(),
            forall|j: int| 0 <= j < i ==> names(list@)[j] != name@,
        decreases list.len() - i,
    {
        if list[i] == *name {
            assert(names(list@)[i as int] == name@);
            return true;
        }
        i += 1;
    }
    false
}

/// Reads the configuration from JSON text: an object that maps each group's
/// name to the list of its sources.
pub fn subs_from_str(text: &str) -> (read: Result<SourceConfig, ConfigError>)
    ensures
        match read {
            Ok(config) => json_groups(text@) == Some(config@),
            Err(_) => json_groups(text@) is None,
        },
{
    match read_groups(text) {
        Ok(groups) => Ok(SourceConfig { groups }),
        Err(e) => Err(ConfigError::Malformed { reason: json_error_text(&e) }),
    }
}

impl SourceConfig {
    /// The names of the sources to fetch: every source of every group, each
    /// once, in the order in which they first occur.
    pub fn source_names(&self) -> (sources: Vec<String>)
        ensures
            names(sources@) == distinct(flattened(self@)),
    {
        let mut sources: Vec<String> = Vec::new();
        assert(names(sources@) =~= Seq::<Seq<char>>::empty());
        let mut g: usize = 0;
        while g < self.groups.len()
            invariant
                g <= self.groups@.len(),
                names(sources@) == distinct(flattened(self@.take(g as int))),
            decreases self.groups@.len() - g,
        {
            let group = &self.groups[g];
            let ghost base = flattened(self@.take(g as int));
            let mut s: usize = 0;
            assert(base + names(group.sources@).take(0) =~= base);
            while s < group.sources.len()
                invariant
                    s <= group.sources@.len(),
                    names(sources@) == distinct(base + names(group.sources@).take(s as int)),
                decreases group.sources@.len() - s,
            {
                let name = &group.sources[s];
                let ghost so_far = base + names(group.sources@).take(s as int);
                let ghost next = base + names(group.sources@).take(s + 1);
                proof {
                    assert(next.drop_last() =~= so_far);
                    assert(next.last() == name@);
                }
                if !holds_name(&sources, name) {
                    let ghost before = sources@;
                    sources.push(name.clone());
                    assert(names(sources@) =~= names(before).push(name@));
                }
                s += 1;
            }
            proof {
                let upto = self@.take(g + 1);
                assert(upto.drop_last() =~= self@.take(g as int));
                assert(upto.last() == group@);
                assert(names(group.sources@).take(group.sources@.len() as int) =~= names(
                    group.sources@,
                ));
            }
            g += 1;
        }
        assert(self@.take(self.groups@.len() as int) =~= self@);
        sources
    }
}

} // verus!
