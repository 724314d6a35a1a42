//! The content checksum of a directory tree: every regular file, in a fixed
//! order, hashed as its relative path followed by its contents.

use vstd::prelude::*;
use vstd::relations::{sorted_by, total_ordering};
use vstd::seq_lib::{group_to_multiset_ensures, lemma_sorted_unique};
use vstd::string::*;

verus! {

broadcast use group_to_multiset_ensures;

/// One regular file of a tree: its path relative to the tree's root (as
/// bytes, `/`-separated) and its contents.
#[derive(Debug, Clone)]
pub struct FileContent {
    pub relative_path: Vec<u8>,
    pub contents: Vec<u8>,
}

impl View for FileContent {
    type V = (Seq<u8>, Seq<u8>);

    open spec fn view(&self) -> (Seq<u8>, Seq<u8>) {
        (self.relative_path@, self.contents@)
    }
}

/// The views of a sequence of files.
pub open spec fn file_views(v: Seq<FileContent>) -> Seq<(Seq<u8>, Seq<u8>)> {
    v.map_values(|f: FileContent| f@)
}

/// Lexicographic order on byte strings: `a` comes no later than `b`.
pub open spec fn bytes_le(a: Seq<u8>, b: Seq<u8>) -> bool
    decreases a.len(),
{
    if a.len() == 0 {
        true
    } else if b.len() == 0 {
        false
    } else if a[0] != b[0] {
        a[0] < b[0]
    } else {
        bytes_le(a.drop_first(), b.drop_first())
    }
}

/// Files ordered by relative path, and by contents where paths are equal.
pub open spec fn file_le(x: (Seq<u8>, Seq<u8>), y: (Seq<u8>, Seq<u8>)) -> bool {
    if x.0 == y.0 {
        bytes_le(x.1, y.1)
    } else {
        bytes_le(x.0, y.0)
    }
}

/// The order in which files enter the checksum.
pub open spec fn file_order() -> spec_fn((Seq<u8>, Seq<u8>), (Seq<u8>, Seq<u8>)) -> bool {
    |x: (Seq<u8>, Seq<u8>), y: (Seq<u8>, Seq<u8>)| file_le(x, y)
}

proof fn lemma_bytes_le_reflexive(a: Seq<u8>)
    ensures
        bytes_le(a, a),
    decreases a.len(),
{
    if a.len() > 0 {
        lemma_bytes_le_reflexive(a.drop_first());
    }
}

proof fn lemma_bytes_le_antisymmetric(a: Seq<u8>, b: Seq<u8>)
    requires
        bytes_le(a, b),
        bytes_le(b, a),
    ensures
        a == b,
    decreases a.len(),
{
    if a.len() > 0 && b.len() > 0 {
        lemma_bytes_le_antisymmetric(a.drop_first(), b.drop_first());
        assert(a =~= seq![a[0]] + a.drop_first());
        assert(b =~= seq![b[0]] + b.drop_first());
    }
}

proof fn lemma_bytes_le_transitive(a: Seq<u8>, b: Seq<u8>, c: Seq<u8>)
    requires
        bytes_le(a, b),
        bytes_le(b, c),
    ensures
        bytes_le(a, c),
    decreases a.len(),
{
    if a.len() > 0 && b.len() > 0 && c.len() > 0 && a[0] == b[0] && b[0] == c[0] {
        lemma_bytes_le_transitive(a.drop_first(), b.drop_first(), c.drop_first());
    }
}

proof fn lemma_bytes_le_total(a: Seq<u8>, b: Seq<u8>)
    ensures
        bytes_le(a, b) || bytes_le(b, a),
    decreases a.len(),
{
    if a.len() > 0 && b.len() > 0 && a[0] == b[0] {
        lemma_bytes_le_total(a.drop_first(), b.drop_first());
    }
}

/// The file order is a total order.
pub proof fn lemma_file_order_total()
    ensures
        total_ordering(file_order()),
{
    assert forall|x: (Seq<u8>, Seq<u8>)| #[trigger] file_order()(x, x) by {
        lemma_bytes_le_reflexive(x.1);
    }
    assert forall|x: (Seq<u8>, Seq<u8>), y: (Seq<u8>, Seq<u8>)|
        #[trigger] file_order()(x, y) && #[trigger] file_order()(y, x) implies x == y by {
        if x.0 == y.0 {
            lemma_bytes_le_antisymmetric(x.1, y.1);
        } else {
            lemma_bytes_le_antisymmetric(x.0, y.0);
        }
    }
    assert forall|x: (Seq<u8>, Seq<u8>), y: (Seq<u8>, Seq<u8>), z: (Seq<u8>, Seq<u8>)|
        #[trigger] file_order()(x, y) && #[trigger] file_order()(y, z) implies file_order()(
        x,
        z,
    ) by {
        if x.0 == y.0 && y.0 == z.0 {
            lemma_bytes_le_transitive(x.1, y.1, z.1);
        } else if x.0 == y.0 {
        } else if y.0 == z.0 {
        } else {
            lemma_bytes_le_transitive(x.0, y.0, z.0);
            if x.0 == z.0 {
                lemma_bytes_le_antisymmetric(x.0, y.0);
            }
        }
    }
    assert forall|x: (Seq<u8>, Seq<u8>), y: (Seq<u8>, Seq<u8>)|
        #[trigger] file_order()(x, y) || #[trigger] file_order()(y, x) by {
        lemma_bytes_le_total(x.0, y.0);
        lemma_bytes_le_total(x.1, y.1);
    }
}

fn bytes_le_exec(a: &Vec<u8>, b: &Vec<u8>) -> (r: bool)
    ensures
        r == bytes_le(a@, b@),
{
    let mut i: usize = 0;
    proof {
        assert(a@.subrange(0, a@.len() as int) =~= a@);
        assert(b@.subrange(0, b@.len() as int) =~= b@);
    }
    while i < a.len() && i < b.len() && a[i] == b[i]
        invariant
            i <= a@.len(),
            i <= b@.len(),
            bytes_le(a@, b@) == bytes_le(a@.subrange(i as int, a@.len() as int), b@.subrange(
                i as int,
                b@.len() as int,
            )),
        decreases a.len() - i,
    {
        proof {
            let sa = a@.subrange(i as int, a@.len() as int);
            let sb = b@.subrange(i as int, b@.len() as int);
            assert(sa.drop_first() =~= a@.subrange(i + 1, a@.len() as int));
            assert(sb.drop_first() =~= b@.subrange(i + 1, b@.len() as int));
        }
        i = i + 1;
    }
    if i == a.len() {
        true
    } else if i == b.len() {
        false
    } else {
        a[i] < b[i]
    }
}

fn file_le_exec(x: &FileContent, y: &FileContent) -> (r: bool)
    ensures
        r == file_le(x@, y@),
{
    if bytes_le_exec(&x.relative_path, &y.relative_path) && bytes_le_exec(
        &y.relative_path,
        &x.relative_path,
    ) {
        proof {
            lemma_bytes_le_antisymmetric(x.relative_path@, y.relative_path@);
        }
        bytes_le_exec(&x.contents, &y.contents)
    } else {
        proof {
            if x.relative_path@ == y.relative_path@ {
                lemma_bytes_le_reflexive(x.relative_path@);
            }
        }
        bytes_le_exec(&x.relative_path, &y.relative_path)
    }
}

/// The files in checksum order.
pub fn sort_files(files: Vec<FileContent>) -> (r: Vec<FileContent>)
    ensures
        file_views(r@) == file_views(files@).sort_by(file_order()),
{
    let ghost all = file_views(files@);
    let mut rest = files;
    let mut out: Vec<FileContent> = Vec::new();
    proof {
        lemma_file_order_total();
        assert(file_views(out@) =~= Seq::<(Seq<u8>, Seq<u8>)>::empty());
    }
    while rest.len() > 0
        invariant
            total_ordering(file_order()),
            sorted_by(file_views(out@), file_order()),
            file_views(out@).to_multiset().add(file_views(rest@).to_multiset())
                == all.to_multiset(),
        decreases rest.len(),
    {
        let ghost before_rest = rest@;
        let f = rest.pop().unwrap();
        proof {
            assert(file_views(before_rest) =~= file_views(rest@).push(f@));
        }
        let mut j: usize = 0;
        while j < out.len() && file_le_exec(&out[j], &f)
            invariant
                j <= out@.len(),
                forall|k: int| 0 <= k < j ==> file_le(#[trigger] out@[k]@, f@),
            decreases out.len() - j,
        {
            j = j + 1;
        }
        let ghost before_out = file_views(out@);
        out.insert(j, f);
        proof {
            let now = file_views(out@);
            assert(now =~= before_out.insert(j as int, f@));
            assert forall|a: int, b: int| 0 <= a < b < now.len() implies #[trigger] file_order()(
                now[a],
                now[b],
            ) by {
                if b < j {
                    assert(file_order()(before_out[a], before_out[b]));
                } else if b == j {
                    assert(file_le(before_out[a], f@));
                } else if a == j {
                    assert(file_order()(before_out[j as int], before_out[b - 1]) || j == b - 1);
                    assert(file_order()(f@, before_out[j as int]) || file_order()(
                        before_out[j as int],
                        f@,
                    ));
                } else if a < j {
                    assert(file_order()(before_out[a], before_out[b - 1]));
                } else {
                    assert(file_order()(before_out[a - 1], before_out[b - 1]));
                }
            }
        }
    }
    proof {
        assert(file_views(rest@) =~= Seq::<(Seq<u8>, Seq<u8>)>::empty());
        assert(file_views(out@).to_multiset() =~= all.to_multiset());
        all.lemma_sort_by_ensures(file_order());
        lemma_sorted_unique(file_views(out@), all.sort_by(file_order()), file_order());
    }
    out
}

/// The bytes hashed for files taken in this order: each relative path
/// followed by that file's contents.
pub open spec fn hashed_bytes(files: Seq<(Seq<u8>, Seq<u8>)>) -> Seq<u8>
    decreases files.len(),
{
    if files.len() == 0 {
        Seq::empty()
    } else {
        hashed_bytes(files.drop_last()) + files.last().0 + files.last().1
    }
}

/// The lower-case hexadecimal digit for `d < 16`.
pub open spec fn hex_digit(d: int) -> char {
    if d < 10 {
        ((d + '0' as int) as u8) as char
    } else {
        ((d - 10 + 'a' as int) as u8) as char
    }
}

/// Two lower-case hexadecimal digits per byte, most significant first.
pub open spec fn hex_of(b: Seq<u8>) -> Seq<char>
    decreases b.len(),
{
    if b.len() == 0 {
        Seq::empty()
    } else {
        hex_of(b.drop_last()) + seq![hex_digit(b.last() as int / 16), hex_digit(b.last() as int % 16)]
    }
}

/// What SHA-256 makes of a byte string.
pub uninterp spec fn sha256_of(data: Seq<u8>) -> Seq<u8>;

/// The checksum text of files taken in this order.
pub open spec fn checksum_of(files: Seq<(Seq<u8>, Seq<u8>)>) -> Seq<char> {
    "sha256:"@ + hex_of(sha256_of(hashed_bytes(files)))
}

/// The checksum of a tree's files, whatever order they were found in.
pub open spec fn tree_checksum(files: Seq<(Seq<u8>, Seq<u8>)>) -> Seq<char> {
    checksum_of(files.sort_by(file_order()))
}

/// Relies on `sha2::Sha256::digest`: the SHA-256 digest of the bytes, which
/// is 32 bytes long and a function of the bytes alone.
#[verifier::external_body]
fn sha256_digest(data: &Vec<u8>) -> (r: Vec<u8>)
    ensures
        r@ == sha256_of(data@),
        r@.len() == 32,
{
    <sha2::Sha256 as sha2::Digest>::digest(data.as_slice()).to_vec()
}

fn push_all(out: &mut Vec<u8>, bytes: &Vec<u8>)
    ensures
        final(out)@ == old(out)@ + bytes@,
{
    let mut i: usize = 0;
    while i < bytes.len()
        invariant
            i <= bytes@.len(),
            out@ == old(out)@ + bytes@.subrange(0, i as int),
        decreases bytes.len() - i,
    {
        out.push(bytes[i]);
        proof {
            assert(bytes@.subrange(0, i + 1) =~= bytes@.subrange(0, i as int).push(bytes@[i as int]));
        }
        i = i + 1;
    }
    proof {
        assert(bytes@.subrange(0, i as int) =~= bytes@);
    }
}

/// The bytes that are hashed for these files: sorted into checksum order,
/// then each relative path followed by its contents.
pub fn hashed_input(files: Vec<FileContent>) -> (r: Vec<u8>)
    ensures
        r@ == hashed_bytes(file_views(files@).sort_by(file_order())),
{
    let sorted = sort_files(files);
    let mut out: Vec<u8> = Vec::new();
    let mut i: usize = 0;
    proof {
        assert(file_views(sorted@).subrange(0, 0) =~= Seq::<(Seq<u8>, Seq<u8>)>::empty());
    }
    while i < sorted.len()
        invariant
            i <= sorted@.len(),
            out@ == hashed_bytes(file_views(sorted@).subrange(0, i as int)),
        decreases sorted.len() - i,
    {
        push_all(&mut out, &sorted[i].relative_path);
        push_all(&mut out, &sorted[i].contents);
        proof {
            let next = file_views(sorted@).subrange(0, i + 1);
            assert(next.drop_last() =~= file_views(sorted@).subrange(0, i as int));
            assert(next.last() == sorted@[i as int]@);
        }
        i = i + 1;
    }
    proof {
        assert(file_views(sorted@).subrange(0, i as int) =~= file_views(sorted@));
    }
    out
}

/// A digest rendered as checksum text: `sha256:` and two lower-case
/// hexadecimal digits per byte.
pub fn render_checksum(digest: &Vec<u8>) -> (r: String)
    ensures
        r@ == "sha256:"@ + hex_of(digest@),
{
    let digits = "0123456789abcdef";
    proof {
        reveal_strlit("0123456789abcdef");
    }
    let mut r = String::from_str("sha256:");
    let mut i: usize = 0;
    proof {
        assert(digest@.subrange(0, 0) =~= Seq::<u8>::empty());
    }
    while i < digest.len()
        invariant
            i <= digest@.len(),
            digits@ == "0123456789abcdef"@,
            digits@.len() == 16,
            forall|d: int| 0 <= d < 16 ==> #[trigger] digits@[d] == hex_digit(d),
            r@ == "sha256:"@ + hex_of(digest@.subrange(0, i as int)),
        decreases digest.len() - i,
    {
        let byte = digest[i];
        let hi = (byte / 16) as usize;
        let lo = (byte % 16) as usize;
        r.append(digits.substring_char(hi, hi + 1));
        r.append(digits.substring_char(lo, lo + 1));
        proof {
            let next = digest@.subrange(0, i + 1);
            assert(next.drop_last() =~= digest@.subrange(0, i as int));
            assert(digits@.subrange(hi as int, hi + 1) =~= seq![hex_digit(hi as int)]);
            assert(digits@.subrange(lo as int, lo + 1) =~= seq![hex_digit(lo as int)]);
            assert(hex_of(next) =~= hex_of(digest@.subrange(0, i as int)) + seq![
                hex_digit(hi as int),
                hex_digit(lo as int),
            ]);
        }
        i = i + 1;
    }
    proof {
        assert(digest@.subrange(0, i as int) =~= digest@);
    }
    r
}

/// The checksum of a tree from its regular files, in any order.
pub fn calculate_checksum(files: Vec<FileContent>) -> (r: String)
    ensures
        r@ == tree_checksum(file_views(files@)),
{
    let input = hashed_input(files);
    let digest = sha256_digest(&input);
    render_checksum(&digest)
}

/// The checksum depends on the files alone, not on the order in which they
/// were found: two listings of the same files give the same checksum.
pub proof fn lemma_checksum_ignores_order(a: Seq<(Seq<u8>, Seq<u8>)>, b: Seq<(Seq<u8>, Seq<u8>)>)
    requires
        a.to_multiset() == b.to_multiset(),
    ensures
        tree_checksum(a) == tree_checksum(b),
{
    lemma_file_order_total();
    a.lemma_sort_by_ensures(file_order());
    b.lemma_sort_by_ensures(file_order());
    lemma_sorted_unique(a.sort_by(file_order()), b.sort_by(file_order()), file_order());
}

proof fn lemma_hashed_bytes_append(a: Seq<(Seq<u8>, Seq<u8>)>, b: Seq<(Seq<u8>, Seq<u8>)>)
    ensures
        hashed_bytes(a + b) == hashed_bytes(a) + hashed_bytes(b),
    decreases b.len(),
{
    if b.len() == 0 {
        assert(a + b =~= a);
        assert(hashed_bytes(a) + hashed_bytes(b) =~= hashed_bytes(a));
    } else {
        assert((a + b).drop_last() =~= a + b.drop_last());
        assert((a + b).last() == b.last());
        lemma_hashed_bytes_append(a, b.drop_last());
        assert(hashed_bytes(a + b) =~= hashed_bytes(a) + hashed_bytes(b));
    }
}

/// Editing the contents of one file changes the bytes that are hashed:
/// for files in checksum order, replacing one file's contents by different
/// contents gives a different hashed input.
pub proof fn lemma_edit_changes_hashed_input(
    files: Seq<(Seq<u8>, Seq<u8>)>,
    i: int,
    contents: Seq<u8>,
)
    requires
        0 <= i < files.len(),
        contents != files[i].1,
    ensures
        hashed_bytes(files.update(i, (files[i].0, contents))) != hashed_bytes(files),
{
    let edited = files.update(i, (files[i].0, contents));
    let pre = files.subrange(0, i);
    let post = files.subrange(i + 1, files.len() as int);
    assert(files =~= pre + seq![files[i]] + post);
    assert(edited =~= pre + seq![(files[i].0, contents)] + post);
    lemma_hashed_bytes_append(pre + seq![files[i]], post);
    lemma_hashed_bytes_append(pre, seq![files[i]]);
    lemma_hashed_bytes_append(pre + seq![(files[i].0, contents)], post);
    lemma_hashed_bytes_append(pre, seq![(files[i].0, contents)]);
    assert(seq![files[i]].drop_last() =~= Seq::<(Seq<u8>, Seq<u8>)>::empty());
    assert(seq![(files[i].0, contents)].drop_last() =~= Seq::<(Seq<u8>, Seq<u8>)>::empty());
    assert(hashed_bytes(Seq::<(Seq<u8>, Seq<u8>)>::empty()) == Seq::<u8>::empty());
    assert(hashed_bytes(seq![files[i]]) =~= files[i].0 + files[i].1);
    assert(hashed_bytes(seq![(files[i].0, contents)]) =~= files[i].0 + contents);
    let head = hashed_bytes(pre) + files[i].0;
    let tail = hashed_bytes(post);
    assert(hashed_bytes(files) =~= head + files[i].1 + tail);
    assert(hashed_bytes(edited) =~= head + contents + tail);
    if hashed_bytes(edited) == hashed_bytes(files) {
        let x = head + contents + tail;
        let y = head + files[i].1 + tail;
        assert(contents.len() == files[i].1.len());
        assert(x.subrange(head.len() as int, (head.len() + contents.len()) as int) =~= contents);
        assert(y.subrange(head.len() as int, (head.len() + contents.len()) as int) =~= files[i].1);
    }
}

} // verus!
