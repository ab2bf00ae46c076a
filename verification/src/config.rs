//! Host groups and command lists, as they are configured.

use vstd::prelude::*;
use crate::text::{copy_texts, same_text, texts};

verus! {

/// A named group of host addresses.
#[derive(Clone, Debug, PartialEq, Eq)]
pub struct HostGroup {
    pub name: String,
    pub hosts: Vec<String>,
}

/// The groups of a fleet. A group is found by its name; of two groups with
/// one name the first is the one found.
#[derive(Clone, Debug, PartialEq, Eq)]
pub struct Config {
    pub groups: Vec<HostGroup>,
}

/// An ordered list of commands.
#[derive(Clone, Debug, PartialEq, Eq)]
pub struct Commands {
    pub commands: Vec<String>,
}

impl View for Commands {
    type V = Seq<Seq<char>>;

    open spec fn view(&self) -> Seq<Seq<char>> {
        texts(self.commands@)
    }
}

/// `i` is the first place in `groups` that holds a group named `name`.
pub open spec fn is_first_named(groups: Seq<HostGroup>, name: Seq<char>, i: int) -> bool {
    &&& 0 <= i < groups.len()
    &&& groups[i].name@ == name
    &&& forall|j: int| 0 <= j < i ==> (#[trigger] groups[j]).name@ != name
}

/// Some group in `groups` is named `name`.
pub open spec fn has_group(groups: Seq<HostGroup>, name: Seq<char>) -> bool {
    exists|i: int| 0 <= i < groups.len() && (#[trigger] groups[i]).name@ == name
}

/// The first place in `groups` that holds a group named `name`.
pub open spec fn first_named(groups: Seq<HostGroup>, name: Seq<char>) -> int {
    choose|i: int| is_first_named(groups, name, i)
}

/// The hosts of each group, by the group's name.
pub open spec fn group_map(groups: Seq<HostGroup>) -> Map<Seq<char>, Seq<Seq<char>>> {
    Map::new(
        |name: Seq<char>| has_group(groups, name),
        |name: Seq<char>| texts(groups[first_named(groups, name)].hosts@),
    )
}

impl View for Config {
    type V = Map<Seq<char>, Seq<Seq<char>>>;

    open spec fn view(&self) -> Map<Seq<char>, Seq<Seq<char>>> {
        group_map(self.groups@)
    }
}

/// No two of the groups have one name.
pub open spec fn distinct_names(groups: Seq<HostGroup>) -> bool {
    forall|i: int, j: int|
        0 <= i < j < groups.len() ==> (#[trigger] groups[i]).name@ != (#[trigger] groups[j]).name@
}

impl Config {
    /// No two groups have one name.
    pub open spec fn wf(&self) -> bool {
        distinct_names(self.groups@)
    }

    /// A configuration without groups.
    pub fn new() -> (config: Config)
        ensures
            config@ == Map::<Seq<char>, Seq<Seq<char>>>::empty(),
            config.wf(),
    {
        let config = Config { groups: Vec::new() };
        assert(config@ =~= Map::<Seq<char>, Seq<Seq<char>>>::empty());
        config
    }

    /// Gives the group `name` the hosts `hosts`. A group of that name that
    /// is there already gets them in place of its own.
    pub fn insert(&mut self, name: String, hosts: Vec<String>)
        ensures
            final(self)@ == old(self)@.insert(name@, texts(hosts@)),
            old(self).wf() ==> final(self).wf(),
    {
        let ghost before = self.groups@;
        let ghost key = name@;
        let ghost value = texts(hosts@);
        let mut i: usize = 0;
        while i < self.groups.len()
            invariant
                i <= self.groups.len(),
                self.groups@ == before,
                before == old(self).groups@,
                key == name@,
                value == texts(hosts@),
                forall|j: int| 0 <= j < i ==> (#[trigger] before[j]).name@ != key,
            decreases self.groups.len() - i,
        {
            if same_text(self.groups[i].name.as_str(), name.as_str()) {
                self.groups.set(i, HostGroup { name, hosts });
                proof {
                    assert(self.groups@ =~= before.update(i as int, self.groups@[i as int]));
                    assert(is_first_named(before, key, i as int));
                    lemma_replace_first(before, self.groups@, i as int);
                }
                return ;
            }
            i = i + 1;
        }
        self.groups.push(HostGroup { name, hosts });
        proof {
            assert(self.groups@.drop_last() =~= before);
            lemma_append_new(before, self.groups@);
        }
    }
}

/// The first place of a name is the only place that is first for it.
proof fn lemma_first_named(groups: Seq<HostGroup>, name: Seq<char>, i: int)
    requires
        is_first_named(groups, name, i),
    ensures
        first_named(groups, name) == i,
        has_group(groups, name),
{
    let k = first_named(groups, name);
    assert(is_first_named(groups, name, k));
    if k < i {
        assert(groups[k].name@ != name);
    }
    if i < k {
        assert(groups[i].name@ != name);
    }
}

/// A name that the group at `bound` has is first at some place.
proof fn lemma_has_first(groups: Seq<HostGroup>, name: Seq<char>, bound: int) -> (i: int)
    requires
        0 <= bound < groups.len(),
        groups[bound].name@ == name,
    ensures
        is_first_named(groups, name, i),
        i <= bound,
    decreases bound,
{
    if forall|j: int| 0 <= j < bound ==> (#[trigger] groups[j]).name@ != name {
        bound
    } else {
        let j = choose|j: int| 0 <= j < bound && (#[trigger] groups[j]).name@ == name;
        lemma_has_first(groups, name, j)
    }
}

/// New hosts for the group at the first place of its name.
proof fn lemma_replace_first(before: Seq<HostGroup>, after: Seq<HostGroup>, i: int)
    requires
        0 <= i < before.len(),
        after == before.update(i, after[i]),
        is_first_named(before, after[i].name@, i),
    ensures
        group_map(after) == group_map(before).insert(after[i].name@, texts(after[i].hosts@)),
        distinct_names(before) ==> distinct_names(after),
{
    let key = after[i].name@;
    let wanted = group_map(before).insert(key, texts(after[i].hosts@));
    assert forall|j: int| 0 <= j < before.len() implies (#[trigger] after[j]).name@
        == before[j].name@ by {}
    assert forall|name: Seq<char>| #[trigger]
        group_map(after).dom().contains(name) <==> wanted.dom().contains(name) by {
        if has_group(after, name) {
            let j = choose|j: int| 0 <= j < after.len() && (#[trigger] after[j]).name@ == name;
            assert(before[j].name@ == name);
        }
        if has_group(before, name) {
            let j = choose|j: int| 0 <= j < before.len() && (#[trigger] before[j]).name@ == name;
            assert(after[j].name@ == name);
        }
        if name == key {
            assert(after[i].name@ == name);
        }
    }
    assert forall|name: Seq<char>| group_map(after).dom().contains(name) implies #[trigger]
        group_map(after)[name] == wanted[name] by {
        let j = choose|j: int| 0 <= j < after.len() && (#[trigger] after[j]).name@ == name;
        let k = lemma_has_first(after, name, j);
        assert forall|m: int| 0 <= m < k implies (#[trigger] before[m]).name@ != name by {
            assert(after[m].name@ == before[m].name@);
        }
        assert(is_first_named(before, name, k));
        lemma_first_named(after, name, k);
        lemma_first_named(before, name, k);
        if name == key {
            lemma_first_named(before, name, i);
        }
    }
    assert(group_map(after) =~= wanted);
}

/// A group with a name that no group has yet, behind the others.
proof fn lemma_append_new(before: Seq<HostGroup>, after: Seq<HostGroup>)
    requires
        after.len() == before.len() + 1,
        after.drop_last() == before,
        forall|j: int| 0 <= j < before.len() ==> (#[trigger] before[j]).name@ != after.last().name@,
    ensures
        group_map(after) == group_map(before).insert(
            after.last().name@,
            texts(after.last().hosts@),
        ),
        distinct_names(before) ==> distinct_names(after),
{
    let key = after.last().name@;
    let last = after.len() - 1;
    let wanted = group_map(before).insert(key, texts(after.last().hosts@));
    assert forall|j: int| 0 <= j < before.len() implies #[trigger] after[j] == before[j] by {
        assert(after.drop_last()[j] == after[j]);
    }
    assert forall|name: Seq<char>| #[trigger]
        group_map(after).dom().contains(name) <==> wanted.dom().contains(name) by {
        if has_group(after, name) {
            let j = choose|j: int| 0 <= j < after.len() && (#[trigger] after[j]).name@ == name;
            if j < before.len() {
                assert(before[j].name@ == name);
            }
        }
        if has_group(before, name) {
            let j = choose|j: int| 0 <= j < before.len() && (#[trigger] before[j]).name@ == name;
            assert(after[j].name@ == name);
        }
        if name == key {
            assert(after[last].name@ == name);
        }
    }
    assert forall|name: Seq<char>| group_map(after).dom().contains(name) implies #[trigger]
        group_map(after)[name] == wanted[name] by {
        let j = choose|j: int| 0 <= j < after.len() && (#[trigger] after[j]).name@ == name;
        let k = lemma_has_first(after, name, j);
        lemma_first_named(after, name, k);
        if name == key {
            if k < last {
                assert(before[k].name@ == name);
            }
        } else {
            assert(k < last);
            assert forall|m: int| 0 <= m < k implies (#[trigger] before[m]).name@ != name by {
                assert(after[m] == before[m]);
            }
            assert(before[k] == after[k]);
            assert(is_first_named(before, name, k));
            lemma_first_named(before, name, k);
        }
    }
    assert(group_map(after) =~= wanted);
}

/// The hosts of the group `group`, in their configured order; none where the
/// configuration has no such group.
pub open spec fn spec_filter_hosts(
    config: Map<Seq<char>, Seq<Seq<char>>>,
    group: Seq<char>,
) -> Seq<Seq<char>> {
    if config.contains_key(group) {
        config[group]
    } else {
        Seq::empty()
    }
}

/// The hosts of the group `group`: a copy of its list, or an empty list where
/// the configuration has no such group.
pub fn filter_hosts(config: &Config, group: &str) -> (hosts: Vec<String>)
    ensures
        texts(hosts@) == spec_filter_hosts(config@, group@),
{
    let mut i: usize = 0;
    while i < config.groups.len()
        invariant
            i <= config.groups.len(),
            forall|j: int| 0 <= j < i ==> (#[trigger] config.groups@[j]).name@ != group@,
        decreases config.groups.len() - i,
    {
        if same_text(config.groups[i].name.as_str(), group) {
            assert(is_first_named(config.groups@, group@, i as int));
            return copy_texts(&config.groups[i].hosts);
        }
        i = i + 1;
    }
    let hosts: Vec<String> = Vec::new();
    assert(texts(hosts@) =~= Seq::empty());
    hosts
}

} // verus!
