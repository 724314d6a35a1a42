//! The manifest: for each installed skill's name, where it came from and
//! what its installed content looked like.

use vstd::prelude::*;
use vstd::string::*;

verus! {

/// One installed skill.
#[derive(Debug, Clone)]
pub struct SkillEntry {
    /// The URL the skill was installed from, as given.
    pub source_url: String,
    /// The `owner/repo` slug of its repository.
    pub slug: String,
    /// Its subtree within the repository.
    pub path: String,
    /// The ref it was resolved against (branch, tag or commit).
    pub git_ref: String,
    /// The commit that ref pointed to at the last install.
    pub commit: String,
    /// The checksum of the installed directory at the last install or sync.
    pub checksum: String,
}

/// The content of a manifest record.
pub struct EntryModel {
    pub source_url: Seq<char>,
    pub slug: Seq<char>,
    pub path: Seq<char>,
    pub git_ref: Seq<char>,
    pub commit: Seq<char>,
    pub checksum: Seq<char>,
}

impl View for SkillEntry {
    type V = EntryModel;

    open spec fn view(&self) -> EntryModel {
        EntryModel {
            source_url: self.source_url@,
            slug: self.slug@,
            path: self.path@,
            git_ref: self.git_ref@,
            commit: self.commit@,
            checksum: self.checksum@,
        }
    }
}

impl SkillEntry {
    /// A copy of this record.
    pub fn duplicate(&self) -> (r: SkillEntry)
        ensures
            r@ == self@,
    {
        SkillEntry {
            source_url: self.source_url.clone(),
            slug: self.slug.clone(),
            path: self.path.clone(),
            git_ref: self.git_ref.clone(),
            commit: self.commit.clone(),
            checksum: self.checksum.clone(),
        }
    }
}

/// The abbreviated form of a commit shown in listings: its first seven
/// characters, or all of it when shorter.
pub fn short_commit(commit: &str) -> (r: &str)
    ensures
        r@ == commit@.subrange(0, if commit@.len() < 7 { commit@.len() as int } else { 7 }),
{
    let n = commit.unicode_len();
    let end = if n < 7 { n } else { 7 };
    commit.substring_char(0, end)
}

/// The records keyed by name: later records override earlier ones.
pub open spec fn records_map(s: Seq<(String, SkillEntry)>) -> Map<Seq<char>, EntryModel>
    decreases s.len(),
{
    if s.len() == 0 {
        Map::empty()
    } else {
        records_map(s.drop_last()).insert(s.last().0@, s.last().1@)
    }
}

/// No two records share a name.
pub open spec fn names_unique(s: Seq<(String, SkillEntry)>) -> bool {
    forall|i: int, j: int| 0 <= i < s.len() && 0 <= j < s.len() && i != j ==> #[trigger] s[i].0@
        != #[trigger] s[j].0@
}

proof fn lemma_records_dom(s: Seq<(String, SkillEntry)>, k: Seq<char>)
    ensures
        records_map(s).dom().contains(k) <==> exists|i: int| 0 <= i < s.len() && #[trigger] s[i].0@
            == k,
    decreases s.len(),
{
    if s.len() > 0 {
        lemma_records_dom(s.drop_last(), k);
        if records_map(s.drop_last()).dom().contains(k) {
            let i = choose|i: int| 0 <= i < s.drop_last().len() && #[trigger] s.drop_last()[i].0@ == k;
            assert(s[i].0@ == k);
        }
        if exists|i: int| 0 <= i < s.len() && #[trigger] s[i].0@ == k {
            let i = choose|i: int| 0 <= i < s.len() && #[trigger] s[i].0@ == k;
            if i < s.len() - 1 {
                assert(s.drop_last()[i].0@ == k);
            }
        }
    }
}

proof fn lemma_records_value(s: Seq<(String, SkillEntry)>, i: int)
    requires
        names_unique(s),
        0 <= i < s.len(),
    ensures
        records_map(s).dom().contains(s[i].0@),
        records_map(s)[s[i].0@] == s[i].1@,
    decreases s.len(),
{
    if i < s.len() - 1 {
        assert(s.drop_last()[i] == s[i]);
        lemma_records_value(s.drop_last(), i);
        assert(s[i].0@ != s[s.len() - 1].0@);
    }
}

proof fn lemma_records_update(s: Seq<(String, SkillEntry)>, i: int, name: String, e: SkillEntry)
    requires
        names_unique(s),
        0 <= i < s.len(),
        s[i].0@ == name@,
    ensures
        records_map(s.update(i, (name, e))) == records_map(s).insert(name@, e@),
    decreases s.len(),
{
    let t = s.update(i, (name, e));
    if i == s.len() - 1 {
        assert(t.drop_last() =~= s.drop_last());
        assert(records_map(t) =~= records_map(s).insert(name@, e@));
    } else {
        assert(t.drop_last() =~= s.drop_last().update(i, (name, e)));
        assert(s.drop_last()[i] == s[i]);
        lemma_records_update(s.drop_last(), i, name, e);
        assert(t.last() == s.last());
        assert(s[s.len() - 1].0@ != s[i].0@);
        assert(records_map(t) =~= records_map(s).insert(name@, e@));
    }
}

proof fn lemma_records_remove(s: Seq<(String, SkillEntry)>, i: int)
    requires
        names_unique(s),
        0 <= i < s.len(),
    ensures
        records_map(s.remove(i)) == records_map(s).remove(s[i].0@),
    decreases s.len(),
{
    let t = s.remove(i);
    let k = s[i].0@;
    if i == s.len() - 1 {
        assert(t =~= s.drop_last());
        lemma_records_dom(s.drop_last(), k);
        assert forall|j: int| 0 <= j < s.drop_last().len() implies #[trigger] s.drop_last()[j].0@
            != k by {
            assert(s[j].0@ != s[i].0@);
        }
        assert(records_map(t) =~= records_map(s).remove(k));
    } else {
        assert(t.drop_last() =~= s.drop_last().remove(i));
        assert(t.last() == s.last());
        assert(s.drop_last()[i] == s[i]);
        lemma_records_remove(s.drop_last(), i);
        assert(s.last().0@ != k);
        assert(records_map(t) =~= records_map(s).remove(k));
    }
}

/// The manifest: installed skills by name.
#[derive(Debug, Clone)]
pub struct SkillsConfig {
    skills: Vec<(String, SkillEntry)>,
}

impl View for SkillsConfig {
    type V = Map<Seq<char>, EntryModel>;

    closed spec fn view(&self) -> Map<Seq<char>, EntryModel> {
        records_map(self.skills@)
    }
}

impl SkillsConfig {
    /// Names are unique.
    pub closed spec fn wf(&self) -> bool {
        names_unique(self.skills@)
    }

    /// An empty manifest, as when no manifest file exists yet.
    pub fn new() -> (r: SkillsConfig)
        ensures
            r.wf(),
            r@ == Map::<Seq<char>, EntryModel>::empty(),
    {
        SkillsConfig { skills: Vec::new() }
    }

    fn find(&self, name: &str) -> (r: Option<usize>)
        ensures
            match r {
                Some(i) => i < self.skills@.len() && self.skills@[i as int].0@ == name@,
                None => forall|i: int|
                    0 <= i < self.skills@.len() ==> #[trigger] self.skills@[i].0@ != name@,
            },
    {
        let mut i: usize = 0;
        while i < self.skills.len()
            invariant
                i <= self.skills@.len(),
                forall|k: int| 0 <= k < i ==> #[trigger] self.skills@[k].0@ != name@,
            decreases self.skills.len() - i,
        {
            let probe = String::from_str(name);
            if self.skills[i].0 == probe {
                return Some(i);
            }
            i = i + 1;
        }
        None
    }

    /// Whether a skill of this name is recorded.
    pub fn contains(&self, name: &str) -> (r: bool)
        ensures
            r == self@.dom().contains(name@),
    {
        proof {
            lemma_records_dom(self.skills@, name@);
        }
        self.find(name).is_some()
    }

    /// The record of the skill of this name, if there is one.
    pub fn get(&self, name: &str) -> (r: Option<&SkillEntry>)
        requires
            self.wf(),
        ensures
            match r {
                Some(e) => self@.dom().contains(name@) && self@[name@] == e@,
                None => !self@.dom().contains(name@),
            },
    {
        proof {
            lemma_records_dom(self.skills@, name@);
        }
        match self.find(name) {
            Some(i) => {
                proof {
                    lemma_records_value(self.skills@, i as int);
                }
                Some(&self.skills[i].1)
            },
            None => None,
        }
    }

    /// Records `entry` under `name`, replacing any earlier record of that name.
    pub fn insert(&mut self, name: String, entry: SkillEntry)
        requires
            old(self).wf(),
        ensures
            final(self).wf(),
            final(self)@ == old(self)@.insert(name@, entry@),
    {
        match self.find(name.as_str()) {
            Some(i) => {
                proof {
                    lemma_records_update(self.skills@, i as int, name, entry);
                }
                let ghost before = self.skills@;
                self.skills.set(i, (name, entry));
                proof {
                    assert(self.skills@ =~= before.update(i as int, (name, entry)));
                }
            },
            None => {
                let ghost before = self.skills@;
                self.skills.push((name, entry));
                proof {
                    assert(self.skills@.drop_last() =~= before);
                }
            },
        }
    }

    /// Drops the record of this name; says whether there was one.
    pub fn remove(&mut self, name: &str) -> (r: bool)
        requires
            old(self).wf(),
        ensures
            final(self).wf(),
            r == old(self)@.dom().contains(name@),
            final(self)@ == old(self)@.remove(name@),
    {
        proof {
            lemma_records_dom(self.skills@, name@);
        }
        match self.find(name) {
            Some(i) => {
                proof {
                    lemma_records_remove(self.skills@, i as int);
                }
                self.skills.remove(i);
                true
            },
            None => {
                proof {
                    assert(self@ =~= self@.remove(name@));
                }
                false
            },
        }
    }

    /// Whether no skill is recorded.
    pub fn is_empty(&self) -> (r: bool)
        ensures
            r == (self@.dom() == Set::<Seq<char>>::empty()),
    {
        proof {
            if self.skills@.len() > 0 {
                lemma_records_dom(self.skills@, self.skills@[0].0@);
                assert(self@.dom().contains(self.skills@[0].0@));
            } else {
                assert(self@.dom() =~= Set::<Seq<char>>::empty());
            }
        }
        self.skills.len() == 0
    }

    /// The recorded names, each once.
    pub fn names(&self) -> (r: Vec<String>)
        requires
            self.wf(),
        ensures
            forall|k: Seq<char>| self@.dom().contains(k) <==> exists|i: int|
                0 <= i < r@.len() && #[trigger] r@[i]@ == k,
            forall|i: int, j: int|
                0 <= i < r@.len() && 0 <= j < r@.len() && i != j ==> #[trigger] r@[i]@
                    != #[trigger] r@[j]@,
    {
        let mut r: Vec<String> = Vec::new();
        let mut i: usize = 0;
        while i < self.skills.len()
            invariant
                i <= self.skills@.len(),
                r@.len() == i,
                forall|k: int| 0 <= k < i ==> #[trigger] r@[k]@ == self.skills@[k].0@,
            decreases self.skills.len() - i,
        {
            r.push(self.skills[i].0.clone());
            i = i + 1;
        }
        proof {
            assert forall|k: Seq<char>| self@.dom().contains(k) <==> exists|i: int|
                0 <= i < r@.len() && #[trigger] r@[i]@ == k by {
                lemma_records_dom(self.skills@, k);
                if self@.dom().contains(k) {
                    let j = choose|j: int| 0 <= j < self.skills@.len() && #[trigger] self.skills@[j].0@ == k;
                    assert(r@[j]@ == k);
                }
                if exists|i: int| 0 <= i < r@.len() && #[trigger] r@[i]@ == k {
                    let j = choose|j: int| 0 <= j < r@.len() && #[trigger] r@[j]@ == k;
                    assert(self.skills@[j].0@ == k);
                }
            }
            assert forall|a: int, b: int|
                0 <= a < r@.len() && 0 <= b < r@.len() && a != b implies #[trigger] r@[a]@
                    != #[trigger] r@[b]@ by {
                assert(self.skills@[a].0@ != self.skills@[b].0@);
            }
        }
        r
    }
}

} // verus!
