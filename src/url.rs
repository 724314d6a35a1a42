//! Source URLs and the (repository, ref, path) locations they may denote.

use vstd::prelude::*;
use vstd::string::*;

use crate::error::SkillsError;
use crate::text::{join, join_slash, lemma_join_split, views};

verus! {

/// A location in a repository: which repository, at which ref, which subtree.
pub struct Location {
    pub slug: Seq<char>,
    pub git_ref: Seq<char>,
    pub path: Seq<char>,
}

/// A source URL taken apart: the `owner/repo` slug and the segments that
/// follow `/tree/`, whose split into ref and path is not yet known.
#[derive(Debug, Clone)]
pub struct GitHubUrlSpec {
    pub slug: String,
    pub tail: Vec<String>,
}

/// A concrete location: repository slug, ref and path within the repository.
#[derive(Debug, Clone)]
pub struct GitHubUrl {
    pub slug: String,
    pub git_ref: String,
    pub path: String,
}

impl View for GitHubUrl {
    type V = Location;

    open spec fn view(&self) -> Location {
        Location { slug: self.slug@, git_ref: self.git_ref@, path: self.path@ }
    }
}

/// The `k`-th way of reading the tail: its first `k` segments form the ref,
/// the others the path.
pub open spec fn split_candidate(slug: Seq<char>, tail: Seq<Seq<char>>, k: int) -> Location {
    Location {
        slug,
        git_ref: join(tail.subrange(0, k), '/'),
        path: join(tail.subrange(k, tail.len() as int), '/'),
    }
}

/// The candidates split the tail without gap or overlap: candidate `i`
/// (as listed by [`GitHubUrlSpec::candidates`]) takes the first `i + 1`
/// segments as its ref, so refs grow by one segment from each candidate to
/// the next, and its ref, a slash and its path spell the whole tail.
pub proof fn lemma_candidates_split_tail(slug: Seq<char>, tail: Seq<Seq<char>>, i: int)
    requires
        0 <= i < tail.len() - 1,
    ensures
        split_candidate(slug, tail, i + 1).git_ref == join(tail.subrange(0, i + 1), '/'),
        tail.subrange(0, i + 1).len() == i + 1,
        split_candidate(slug, tail, i + 1).git_ref + seq!['/'] + split_candidate(
            slug,
            tail,
            i + 1,
        ).path == join(tail, '/'),
{
    lemma_join_split(tail, '/', i + 1);
}

/// `s` without the slashes at its end.
pub open spec fn trim_trailing_slashes(s: Seq<char>) -> Seq<char>
    decreases s.len(),
{
    if s.len() > 0 && s.last() == '/' {
        trim_trailing_slashes(s.drop_last())
    } else {
        s
    }
}

/// The first index at or after `i` that holds `c`, or the length of `s`.
pub open spec fn find_from(s: Seq<char>, c: char, i: int) -> int
    decreases s.len() - i,
{
    if i < 0 || i >= s.len() {
        s.len() as int
    } else if s[i] == c {
        i
    } else {
        find_from(s, c, i + 1)
    }
}

proof fn lemma_find_from_bounds(s: Seq<char>, c: char, i: int)
    requires
        0 <= i <= s.len(),
    ensures
        i <= find_from(s, c, i) <= s.len(),
    decreases s.len() - i,
{
    if i < s.len() && s[i] != c {
        lemma_find_from_bounds(s, c, i + 1);
    }
}

/// Reading `s` left to right and cutting at each `/`: the non-empty pieces
/// finished so far, and the piece still being read.
pub open spec fn split_state(s: Seq<char>) -> (Seq<Seq<char>>, Seq<char>)
    decreases s.len(),
{
    if s.len() == 0 {
        (Seq::empty(), Seq::empty())
    } else {
        let (done, cur) = split_state(s.drop_last());
        if s.last() == '/' {
            if cur.len() > 0 {
                (done.push(cur), Seq::empty())
            } else {
                (done, cur)
            }
        } else {
            (done, cur.push(s.last()))
        }
    }
}

/// The non-empty pieces of `s` between slashes, in order.
pub open spec fn segments(s: Seq<char>) -> Seq<Seq<char>> {
    let (done, cur) = split_state(s);
    if cur.len() > 0 {
        done.push(cur)
    } else {
        done
    }
}

/// What a source URL denotes, if it has the accepted shape: after trailing
/// slashes are dropped, `https://github.com/`, an owner and a repository
/// name (non-empty, without `/`), `/tree/`, then a rest without line breaks
/// that holds at least two segments. The result is the `owner/repo` slug and
/// the segments of the rest.
pub open spec fn parse_model(url: Seq<char>) -> Option<(Seq<char>, Seq<Seq<char>>)> {
    let u = trim_trailing_slashes(url);
    let head = "https://github.com/"@;
    let sep = "/tree/"@;
    let a = head.len() as int;
    let b = find_from(u, '/', a);
    let c = find_from(u, '/', b + 1);
    if u.len() < a || u.subrange(0, a) != head {
        None
    } else if b == a || b >= u.len() || c == b + 1 || c + sep.len() > u.len() || u.subrange(
        c,
        c + sep.len(),
    ) != sep {
        None
    } else {
        let rest = u.subrange(c + sep.len(), u.len() as int);
        if rest.len() == 0 || rest.contains('\n') || segments(rest).len() < 2 {
            None
        } else {
            Some((u.subrange(a, c), segments(rest)))
        }
    }
}

fn trim_end_slashes(s: &str) -> (r: &str)
    ensures
        r@ == trim_trailing_slashes(s@),
{
    let mut end = s.unicode_len();
    proof {
        assert(s@.subrange(0, end as int) =~= s@);
    }
    while end > 0 && s.get_char(end - 1) == '/'
        invariant
            end <= s@.len(),
            trim_trailing_slashes(s@) == trim_trailing_slashes(s@.subrange(0, end as int)),
        decreases end,
    {
        proof {
            assert(s@.subrange(0, end as int).drop_last() =~= s@.subrange(0, end - 1));
        }
        end = end - 1;
    }
    proof {
        assert(s@.subrange(0, end as int).len() == end);
    }
    s.substring_char(0, end)
}

pub(crate) fn find_char_from(s: &str, c: char, i: usize) -> (r: usize)
    requires
        i <= s@.len(),
    ensures
        r as int == find_from(s@, c, i as int),
{
    let n = s.unicode_len();
    let mut j = i;
    while j < n && s.get_char(j) != c
        invariant
            i <= j <= n == s@.len(),
            find_from(s@, c, i as int) == find_from(s@, c, j as int),
        decreases n - j,
    {
        j = j + 1;
    }
    j
}

/// Whether `lit` occurs in `s` starting at character `at`.
pub(crate) fn occurs_at(s: &str, at: usize, lit: &str) -> (r: bool)
    ensures
        r == (at + lit@.len() <= s@.len() && s@.subrange(at as int, at + lit@.len()) == lit@),
{
    let n = s.unicode_len();
    let m = lit.unicode_len();
    if at > n || m > n - at {
        return false;
    }
    let mut k: usize = 0;
    while k < m
        invariant
            k <= m == lit@.len(),
            at + m <= n == s@.len(),
            forall|t: int| 0 <= t < k ==> s@[at + t] == lit@[t],
        decreases m - k,
    {
        if s.get_char(at + k) != lit.get_char(k) {
            proof {
                assert(s@.subrange(at as int, at + m)[k as int] != lit@[k as int]);
            }
            return false;
        }
        k = k + 1;
    }
    proof {
        assert(s@.subrange(at as int, at + m) =~= lit@);
    }
    true
}

fn contains_char(s: &str, c: char) -> (r: bool)
    ensures
        r == s@.contains(c),
{
    let n = s.unicode_len();
    let mut k: usize = 0;
    while k < n
        invariant
            k <= n == s@.len(),
            forall|t: int| 0 <= t < k ==> s@[t] != c,
        decreases n - k,
    {
        if s.get_char(k) == c {
            return true;
        }
        k = k + 1;
    }
    false
}

fn split_segments(s: &str) -> (r: Vec<String>)
    ensures
        views(r@) == segments(s@),
{
    let n = s.unicode_len();
    let mut out: Vec<String> = Vec::new();
    let mut start: usize = 0;
    let mut i: usize = 0;
    proof {
        assert(s@.subrange(0, 0) =~= Seq::<char>::empty());
        assert(views(out@) =~= Seq::<Seq<char>>::empty());
    }
    while i < n
        invariant
            start <= i <= n == s@.len(),
            split_state(s@.subrange(0, i as int)) == (views(out@), s@.subrange(
                start as int,
                i as int,
            )),
        decreases n - i,
    {
        let ghost pre = s@.subrange(0, i as int);
        let ghost next = s@.subrange(0, i + 1);
        proof {
            assert(next.drop_last() =~= pre);
            assert(next.last() == s@[i as int]);
        }
        if s.get_char(i) == '/' {
            if start < i {
                let piece = String::from_str(s.substring_char(start, i));
                let ghost old_out = out@;
                out.push(piece);
                proof {
                    assert(views(out@) =~= views(old_out).push(piece@));
                }
            }
            start = i + 1;
            proof {
                assert(s@.subrange(start as int, i + 1) =~= Seq::<char>::empty());
            }
        } else {
            proof {
                assert(s@.subrange(start as int, i + 1) =~= s@.subrange(start as int, i as int).push(
                    s@[i as int],
                ));
            }
        }
        i = i + 1;
    }
    proof {
        assert(s@.subrange(0, n as int) =~= s@);
    }
    if start < n {
        let piece = String::from_str(s.substring_char(start, n));
        let ghost old_out = out@;
        out.push(piece);
        proof {
            assert(views(out@) =~= views(old_out).push(piece@));
        }
    }
    out
}

/// A source URL as it is recorded: without trailing slashes.
pub fn normalized_source(url: &str) -> (r: String)
    ensures
        r@ == trim_trailing_slashes(url@),
{
    String::from_str(trim_end_slashes(url))
}

impl GitHubUrlSpec {
    /// Takes a source URL apart, or reports it as `InvalidUrl` (holding the
    /// URL without its trailing slashes) when it does not have the accepted
    /// shape.
    pub fn parse(url: &str) -> (r: Result<GitHubUrlSpec, SkillsError>)
        ensures
            match r {
                Ok(spec) => parse_model(url@) == Some((spec.slug@, views(spec.tail@))),
                Err(e) => parse_model(url@) is None && (e matches SkillsError::InvalidUrl(u)
                    && u@ == trim_trailing_slashes(url@)),
            },
    {
        let u = trim_end_slashes(url);
        let head = "https://github.com/";
        let sep = "/tree/";
        proof {
            reveal_strlit("https://github.com/");
            reveal_strlit("/tree/");
        }
        let n = u.unicode_len();
        let a = head.unicode_len();
        if !occurs_at(u, 0, head) {
            return Err(SkillsError::InvalidUrl(String::from_str(u)));
        }
        let b = find_char_from(u, '/', a);
        proof {
            lemma_find_from_bounds(u@, '/', a as int);
        }
        if b == a || b >= n {
            return Err(SkillsError::InvalidUrl(String::from_str(u)));
        }
        let c = find_char_from(u, '/', b + 1);
        proof {
            lemma_find_from_bounds(u@, '/', b + 1);
        }
        if c == b + 1 || !occurs_at(u, c, sep) {
            return Err(SkillsError::InvalidUrl(String::from_str(u)));
        }
        let m = sep.unicode_len();
        let rest = u.substring_char(c + m, n);
        if c + m == n || contains_char(rest, '\n') {
            return Err(SkillsError::InvalidUrl(String::from_str(u)));
        }
        let tail = split_segments(rest);
        if tail.len() < 2 {
            return Err(SkillsError::InvalidUrl(String::from_str(u)));
        }
        let slug = String::from_str(u.substring_char(a, c));
        Ok(GitHubUrlSpec { slug, tail })
    }


    /// The name a skill from this URL is installed under: the last tail segment.
    pub fn directory_name(&self) -> (r: &str)
        requires
            self.tail@.len() >= 1,
        ensures
            r@ == self.tail@.last()@,
    {
        self.tail[self.tail.len() - 1].as_str()
    }

    /// Every split of the tail into a non-empty ref and a non-empty path,
    /// shortest ref first.
    pub fn candidates(&self) -> (r: Vec<GitHubUrl>)
        ensures
            r@.len() == if self.tail@.len() == 0 { 0 } else { self.tail@.len() - 1 },
            forall|i: int|
                0 <= i < r@.len() ==> #[trigger] r@[i]@ == split_candidate(
                    self.slug@,
                    views(self.tail@),
                    i + 1,
                ),
    {
        let n = self.tail.len();
        let mut r: Vec<GitHubUrl> = Vec::new();
        if n == 0 {
            return r;
        }
        let mut k: usize = 1;
        while k < n
            invariant
                1 <= k <= n == self.tail@.len(),
                r@.len() == k - 1,
                forall|i: int|
                    0 <= i < r@.len() ==> #[trigger] r@[i]@ == split_candidate(
                        self.slug@,
                        views(self.tail@),
                        i + 1,
                    ),
            decreases n - k,
        {
            let git_ref = join_slash(&self.tail, 0, k);
            let path = join_slash(&self.tail, k, n);
            proof {
                assert(views(self.tail@.subrange(0, k as int)) =~= views(self.tail@).subrange(
                    0,
                    k as int,
                ));
                assert(views(self.tail@.subrange(k as int, n as int)) =~= views(
                    self.tail@,
                ).subrange(k as int, n as int));
            }
            r.push(GitHubUrl { slug: self.slug.clone(), git_ref, path });
            k = k + 1;
        }
        r
    }
}


/// What `urlencoding::encode` makes of a text: its percent-encoded form.
pub uninterp spec fn url_encoded(s: Seq<char>) -> Seq<char>;

/// Relies on `urlencoding::encode`: percent-encodes every byte of the text
/// but ASCII letters, digits and `-`, `_`, `.`, `~`; a function of the text
/// alone, and the empty text stays empty.
#[verifier::external_body]
fn percent_encode(s: &str) -> (r: String)
    ensures
        r@ == url_encoded(s@),
        s@.len() == 0 ==> r@.len() == 0,
{
    urlencoding::encode(s).into_owned()
}

impl GitHubUrl {
    /// A copy of this location.
    pub fn duplicate(&self) -> (r: GitHubUrl)
        ensures
            r@ == self@,
    {
        GitHubUrl {
            slug: self.slug.clone(),
            git_ref: self.git_ref.clone(),
            path: self.path.clone(),
        }
    }

    /// Where the archive of the whole repository at this ref is downloaded from.
    pub fn tarball_url(&self) -> (r: String)
        ensures
            r@ == "https://api.github.com/repos/"@ + self.slug@ + "/tarball/"@ + self.git_ref@,
    {
        let mut r = String::from_str("https://api.github.com/repos/");
        r.append(self.slug.as_str());
        r.append("/tarball/");
        r.append(self.git_ref.as_str());
        r
    }

    /// The query that confirms the ref and reports the latest commit touching the path.
    pub fn commits_url(&self) -> (r: String)
        ensures
            r@ == "https://api.github.com/repos/"@ + self.slug@ + "/commits?ref="@ + url_encoded(
                self.git_ref@,
            ) + "&path="@ + url_encoded(self.path@) + "&per_page=1"@,
    {
        let mut r = String::from_str("https://api.github.com/repos/");
        r.append(self.slug.as_str());
        r.append("/commits?ref=");
        let encoded_ref = percent_encode(self.git_ref.as_str());
        r.append(encoded_ref.as_str());
        r.append("&path=");
        let encoded_path = percent_encode(self.path.as_str());
        r.append(encoded_path.as_str());
        r.append("&per_page=1");
        r
    }

    /// The listing query for the immediate entries of the path at this ref.
    pub fn contents_url(&self) -> (r: String)
        ensures
            r@ == "https://api.github.com/repos/"@ + self.slug@ + "/contents/"@ + self.path@
                + "?ref="@ + self.git_ref@,
    {
        let mut r = String::from_str("https://api.github.com/repos/");
        r.append(self.slug.as_str());
        r.append("/contents/");
        r.append(self.path.as_str());
        r.append("?ref=");
        r.append(self.git_ref.as_str());
        r
    }

    /// The location of a direct subdirectory of this one.
    pub fn child(&self, name: &str) -> (r: GitHubUrl)
        ensures
            r@ == (Location {
                slug: self.slug@,
                git_ref: self.git_ref@,
                path: self.path@ + "/"@ + name@,
            }),
    {
        let mut path = self.path.clone();
        path.append("/");
        path.append(name);
        GitHubUrl { slug: self.slug.clone(), git_ref: self.git_ref.clone(), path }
    }
}

} // verus!
