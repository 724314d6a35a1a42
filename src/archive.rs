//! Choosing which entries of a repository archive make up a skill, and
//! where under the destination each of them goes.
//!
//! Every entry name starts with a wrapper directory that the hosting service
//! adds; it is learned from the first entry that has one.

use vstd::prelude::*;
use vstd::string::*;

use crate::error::SkillsError;
use crate::url::{find_char_from, find_from, occurs_at};

verus! {

/// The filter for one extraction: the subtree wanted, the wrapper directory
/// once known, and whether any entry was taken yet.
#[derive(Debug, Clone)]
pub struct ArchiveFilter {
    pub path: String,
    pub wrapper: Option<String>,
    pub found_any: bool,
}

/// The wrapper directory after seeing entry `e`: the one known already, or
/// else the part of `e` before its first slash, if it has one.
pub open spec fn wrapper_after(wrapper: Option<Seq<char>>, e: Seq<char>) -> Option<Seq<char>> {
    if wrapper is None && find_from(e, '/', 0) < e.len() {
        Some(e.subrange(0, find_from(e, '/', 0)))
    } else {
        wrapper
    }
}

/// Where entry `e` goes under the destination: what follows
/// `wrapper/path/` in its name, when that prefix is there and something
/// follows it; otherwise the entry is skipped.
pub open spec fn target_of(wrapper: Option<Seq<char>>, path: Seq<char>, e: Seq<char>) -> Option<
    Seq<char>,
> {
    match wrapper {
        Some(w) => {
            let prefix = w + seq!['/'] + path + seq!['/'];
            if e.len() > prefix.len() && e.subrange(0, prefix.len() as int) == prefix {
                Some(e.subrange(prefix.len() as int, e.len() as int))
            } else {
                None
            }
        },
        None => None,
    }
}

impl ArchiveFilter {
    /// The wrapper directory as a character sequence.
    pub open spec fn wrapper_view(&self) -> Option<Seq<char>> {
        match self.wrapper {
            Some(w) => Some(w@),
            None => None,
        }
    }

    /// A filter for the subtree at `path`, before any entry was seen.
    pub fn new(path: &str) -> (r: ArchiveFilter)
        ensures
            r.path@ == path@,
            r.wrapper is None,
            !r.found_any,
    {
        ArchiveFilter { path: String::from_str(path), wrapper: None, found_any: false }
    }

    /// Takes the next archive entry's name and says where under the
    /// destination it goes, or `None` to skip it.
    pub fn accept(&mut self, entry: &str) -> (r: Option<String>)
        ensures
            final(self).path == old(self).path,
            final(self).wrapper_view() == wrapper_after(old(self).wrapper_view(), entry@),
            match target_of(final(self).wrapper_view(), old(self).path@, entry@) {
                Some(t) => r matches Some(s) && s@ == t,
                None => r is None,
            },
            final(self).found_any == (old(self).found_any || r is Some),
    {
        let n = entry.unicode_len();
        if self.wrapper.is_none() {
            let slash = find_char_from(entry, '/', 0);
            if slash < n {
                self.wrapper = Some(String::from_str(entry.substring_char(0, slash)));
            }
        }
        let wrapper = match &self.wrapper {
            Some(w) => w,
            None => return None,
        };
        let mut prefix = wrapper.clone();
        prefix.append("/");
        prefix.append(self.path.as_str());
        prefix.append("/");
        proof {
            reveal_strlit("/");
            assert("/"@ =~= seq!['/']);
            assert(prefix@ =~= wrapper@ + seq!['/'] + self.path@ + seq!['/']);
        }
        let m = prefix.as_str().unicode_len();
        if m < n && occurs_at(entry, 0, prefix.as_str()) {
            self.found_any = true;
            Some(String::from_str(entry.substring_char(m, n)))
        } else {
            None
        }
    }

    /// How the extraction ended: `PathNotFound` for the wanted path when no
    /// entry was taken.
    pub fn finish(&self) -> (r: Result<(), SkillsError>)
        ensures
            self.found_any ==> r is Ok,
            !self.found_any ==> (r matches Err(SkillsError::PathNotFound(p)) && p@ == self.path@),
    {
        if self.found_any {
            Ok(())
        } else {
            Err(SkillsError::PathNotFound(self.path.clone()))
        }
    }
}

} // verus!
