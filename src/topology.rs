//! Telling a single skill from a container of skills by the `SKILL.md`
//! marker file.

use vstd::prelude::*;
use vstd::string::*;

use crate::error::SkillsError;
use crate::text::views;

verus! {

/// The kind of a directory entry.
#[derive(Debug, Clone, Copy, PartialEq, Eq, Structural)]
pub enum EntryKind {
    File,
    Dir,
    Other,
}

/// One immediate entry of a directory, remote or local.
#[derive(Debug, Clone)]
pub struct ContentItem {
    pub name: String,
    pub kind: EntryKind,
}

/// Whether a location holds one skill or several.
#[derive(Debug, Clone)]
pub enum SkillDetectionResult {
    /// The location is itself a skill.
    Single,
    /// The location is a container; the names of its subdirectories that are skills.
    Batch(Vec<String>),
}

/// A character with ASCII upper-case letters folded to lower case.
pub open spec fn ascii_fold(c: char) -> u32 {
    if 'A' <= c && c <= 'Z' {
        (c as u32 + 32) as u32
    } else {
        c as u32
    }
}

/// Equal but for the case of ASCII letters.
pub open spec fn eq_ignore_ascii_case(a: Seq<char>, b: Seq<char>) -> bool {
    a.len() == b.len() && forall|i: int| 0 <= i < a.len() ==> ascii_fold(#[trigger] a[i])
        == ascii_fold(b[i])
}

/// A file of this name marks a skill: `SKILL.md` in any ASCII case.
pub open spec fn is_manifest_name(name: Seq<char>) -> bool {
    eq_ignore_ascii_case(name, "SKILL.md"@)
}

/// Some entry is a file named like the skill marker.
pub open spec fn has_manifest(items: Seq<ContentItem>) -> bool {
    exists|i: int|
        0 <= i < items.len() && items[i].kind == EntryKind::File && is_manifest_name(
            #[trigger] items[i].name@,
        )
}

/// The names of the subdirectories among the entries, in order.
pub open spec fn dir_names(items: Seq<ContentItem>) -> Seq<Seq<char>>
    decreases items.len(),
{
    if items.len() == 0 {
        Seq::empty()
    } else if items.last().kind == EntryKind::Dir {
        dir_names(items.drop_last()).push(items.last().name@)
    } else {
        dir_names(items.drop_last())
    }
}

/// Of the first `k` subdirectory names, those whose own listing (at the
/// same index of `children`) holds the marker.
pub open spec fn batch_members(
    names: Seq<Seq<char>>,
    children: Seq<Seq<ContentItem>>,
    k: int,
) -> Seq<Seq<char>>
    decreases k,
{
    if k <= 0 {
        Seq::empty()
    } else if has_manifest(children[k - 1]) {
        batch_members(names, children, k - 1).push(names[k - 1])
    } else {
        batch_members(names, children, k - 1)
    }
}

/// The listings, each seen as a sequence of entries.
pub open spec fn listing_views(v: Seq<Vec<ContentItem>>) -> Seq<Seq<ContentItem>> {
    v.map_values(|l: Vec<ContentItem>| l@)
}

fn is_manifest_file_name(name: &str) -> (r: bool)
    ensures
        r == is_manifest_name(name@),
{
    let marker = "SKILL.md";
    proof {
        reveal_strlit("SKILL.md");
    }
    let n = name.unicode_len();
    if n != marker.unicode_len() {
        return false;
    }
    let mut i: usize = 0;
    while i < n
        invariant
            i <= n == name@.len() == marker@.len(),
            marker@ == "SKILL.md"@,
            forall|k: int| 0 <= k < i ==> ascii_fold(#[trigger] name@[k]) == ascii_fold(
                marker@[k],
            ),
        decreases n - i,
    {
        let a = name.get_char(i);
        let b = marker.get_char(i);
        let fa: u32 = if 'A' <= a && a <= 'Z' {
            a as u32 + 32
        } else {
            a as u32
        };
        let fb: u32 = if 'A' <= b && b <= 'Z' {
            b as u32 + 32
        } else {
            b as u32
        };
        if fa != fb {
            proof {
                assert(ascii_fold(name@[i as int]) != ascii_fold(marker@[i as int]));
            }
            return false;
        }
        i = i + 1;
    }
    true
}

/// Whether the entries hold a file named `SKILL.md` (in any ASCII case).
pub fn has_skill_manifest(items: &Vec<ContentItem>) -> (r: bool)
    ensures
        r == has_manifest(items@),
{
    let mut i: usize = 0;
    while i < items.len()
        invariant
            i <= items@.len(),
            forall|k: int|
                0 <= k < i ==> !(items@[k].kind == EntryKind::File && is_manifest_name(
                    #[trigger] items@[k].name@,
                )),
        decreases items.len() - i,
    {
        if items[i].kind == EntryKind::File && is_manifest_file_name(items[i].name.as_str()) {
            return true;
        }
        i = i + 1;
    }
    false
}

/// The names of the subdirectories among the entries, in order.
pub fn subdirectory_names(items: &Vec<ContentItem>) -> (r: Vec<String>)
    ensures
        views(r@) == dir_names(items@),
{
    let mut r: Vec<String> = Vec::new();
    let mut i: usize = 0;
    proof {
        assert(items@.subrange(0, 0) =~= Seq::<ContentItem>::empty());
        assert(views(r@) =~= Seq::<Seq<char>>::empty());
    }
    while i < items.len()
        invariant
            i <= items@.len(),
            views(r@) == dir_names(items@.subrange(0, i as int)),
        decreases items.len() - i,
    {
        let ghost prev = r@;
        proof {
            let next = items@.subrange(0, i + 1);
            assert(next.drop_last() =~= items@.subrange(0, i as int));
        }
        if items[i].kind == EntryKind::Dir {
            r.push(items[i].name.clone());
            proof {
                assert(views(r@) =~= views(prev).push(items@[i as int].name@));
            }
        }
        i = i + 1;
    }
    proof {
        assert(items@.subrange(0, i as int) =~= items@);
    }
    r
}

/// Classifies a location from its listing. A `SKILL.md` file there makes it
/// a single skill. Otherwise `children` holds the listing of each of its
/// subdirectories, in the order of [`subdirectory_names`]; those holding the
/// marker are the batch, and when there are none the location has no skills.
pub fn detect_skill_type(
    listing: &Vec<ContentItem>,
    children: &Vec<Vec<ContentItem>>,
    path: &str,
) -> (r: Result<SkillDetectionResult, SkillsError>)
    requires
        !has_manifest(listing@) ==> children@.len() == dir_names(listing@).len(),
    ensures
        has_manifest(listing@) ==> r matches Ok(SkillDetectionResult::Single),
        !has_manifest(listing@) ==> {
            let members = batch_members(
                dir_names(listing@),
                listing_views(children@),
                children@.len() as int,
            );
            if members.len() == 0 {
                r matches Err(SkillsError::NoSkillsFound(p)) && p@ == path@
            } else {
                r matches Ok(SkillDetectionResult::Batch(v)) && views(v@) == members
            }
        },
{
    if has_skill_manifest(listing) {
        return Ok(SkillDetectionResult::Single);
    }
    let names = subdirectory_names(listing);
    let ghost cv = listing_views(children@);
    let mut members: Vec<String> = Vec::new();
    let mut i: usize = 0;
    proof {
        assert(views(members@) =~= Seq::<Seq<char>>::empty());
    }
    while i < children.len()
        invariant
            i <= children@.len() == names@.len(),
            cv == listing_views(children@),
            views(names@) == dir_names(listing@),
            views(members@) == batch_members(views(names@), cv, i as int),
        decreases children.len() - i,
    {
        let ghost prev = members@;
        if has_skill_manifest(&children[i]) {
            members.push(names[i].clone());
            proof {
                assert(views(members@) =~= views(prev).push(names@[i as int]@));
            }
        }
        i = i + 1;
    }
    if members.len() == 0 {
        Err(SkillsError::NoSkillsFound(String::from_str(path)))
    } else {
        Ok(SkillDetectionResult::Batch(members))
    }
}

/// Checks that a staged skill directory, given by its immediate entries,
/// holds its `SKILL.md` marker file.
pub fn ensure_skill_manifest(entries: &Vec<ContentItem>) -> (r: Result<(), SkillsError>)
    ensures
        has_manifest(entries@) ==> r is Ok,
        !has_manifest(entries@) ==> r matches Err(SkillsError::MissingSkillManifest),
{
    if has_skill_manifest(entries) {
        Ok(())
    } else {
        Err(SkillsError::MissingSkillManifest)
    }
}

} // verus!
