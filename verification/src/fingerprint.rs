//! The workspace fingerprint: a digest of the paths and modification times
//! of a set of files, used as the key of the on-disk analysis cache.
//!
//! The files are put into a canonical order first (by path, byte by byte,
//! then by modification time), so the fingerprint depends on which files
//! there are and not on the order in which a directory walk found them.
//! Each file then contributes its path and the decimal notation of its
//! modification time to one byte stream; the fingerprint is the SHA-256
//! digest of that stream in lower-case hexadecimal notation.

use vstd::prelude::*;
use vstd::relations::{sorted_by, total_ordering};
use vstd::seq_lib::{lemma_sorted_unique, to_multiset_build, to_multiset_insert};
use sha2::Digest;

verus! {

/// A file of the workspace: its path as bytes and its modification time as
/// a number of seconds.
#[derive(Clone, Debug, PartialEq, Eq)]
pub struct FileStamp {
    pub path: Vec<u8>,
    pub modified: u64,
}

/// The mathematical counterpart of a `FileStamp`.
pub struct StampModel {
    pub path: Seq<u8>,
    pub modified: u64,
}

impl DeepView for FileStamp {
    type V = StampModel;

    open spec fn deep_view(&self) -> StampModel {
        StampModel { path: self.path@, modified: self.modified }
    }
}

/// `a` comes before `b` in the lexicographic order of byte sequences.
pub open spec fn bytes_before(a: Seq<u8>, b: Seq<u8>) -> bool
    decreases a.len(),
{
    if b.len() == 0 {
        false
    } else if a.len() == 0 {
        true
    } else if a[0] != b[0] {
        a[0] < b[0]
    } else {
        bytes_before(a.drop_first(), b.drop_first())
    }
}

/// `a` comes no later than `b` in the canonical order: its path comes
/// first, or the paths are equal and it was not modified later.
pub open spec fn stamp_leq(a: StampModel, b: StampModel) -> bool {
    bytes_before(a.path, b.path) || (a.path == b.path && a.modified <= b.modified)
}

/// The canonical order as a relation.
pub open spec fn canonical_order() -> spec_fn(StampModel, StampModel) -> bool {
    |a: StampModel, b: StampModel| stamp_leq(a, b)
}

/// The stamps in canonical order.
pub open spec fn canonical(stamps: Seq<StampModel>) -> Seq<StampModel> {
    stamps.sort_by(canonical_order())
}

/// The byte of a decimal digit.
pub open spec fn digit_byte(d: nat) -> u8
    recommends
        d < 10,
{
    (48 + d) as u8
}

/// The decimal notation of `n` in ASCII, without leading zeros.
pub open spec fn decimal_bytes(n: nat) -> Seq<u8>
    decreases n,
{
    if n < 10 {
        seq![digit_byte(n)]
    } else {
        decimal_bytes(n / 10).push(digit_byte(n % 10))
    }
}

/// The byte stream that the stamps contribute to the digest, in their
/// order: for each stamp its path, then its modification time in decimal
/// notation.
pub open spec fn stamp_stream(stamps: Seq<StampModel>) -> Seq<u8>
    decreases stamps.len(),
{
    if stamps.len() == 0 {
        Seq::empty()
    } else {
        stamp_stream(stamps.drop_last()) + stamps.last().path + decimal_bytes(
            stamps.last().modified as nat,
        )
    }
}

/// The character of a hexadecimal digit, in lower case.
pub open spec fn hex_digit(d: nat) -> char
    recommends
        d < 16,
{
    if d == 0 {
        '0'
    } else if d == 1 {
        '1'
    } else if d == 2 {
        '2'
    } else if d == 3 {
        '3'
    } else if d == 4 {
        '4'
    } else if d == 5 {
        '5'
    } else if d == 6 {
        '6'
    } else if d == 7 {
        '7'
    } else if d == 8 {
        '8'
    } else if d == 9 {
        '9'
    } else if d == 10 {
        'a'
    } else if d == 11 {
        'b'
    } else if d == 12 {
        'c'
    } else if d == 13 {
        'd'
    } else if d == 14 {
        'e'
    } else {
        'f'
    }
}

/// The hexadecimal notation of `data`: two lower-case digits per byte, the
/// high half first.
pub open spec fn hex_chars(data: Seq<u8>) -> Seq<char> {
    Seq::new(
        2 * data.len(),
        |i: int|
            if i % 2 == 0 {
                hex_digit((data[i / 2] / 16) as nat)
            } else {
                hex_digit((data[i / 2] % 16) as nat)
            },
    )
}

/// The SHA-256 digest of `data`, as the `sha2` crate computes it.
pub uninterp spec fn sha256_digest(data: Seq<u8>) -> Seq<u8>;

/// The fingerprint of a set of files.
pub open spec fn fingerprint_of(stamps: Seq<StampModel>) -> Seq<char> {
    hex_chars(sha256_digest(stamp_stream(canonical(stamps))))
}

/// Calls `sha2::Sha256::digest`, which hashes the whole input in one go,
/// and copies the digest into a vector. The result is a function of the
/// input alone; the contract names it and adds that a SHA-256 digest has
/// 32 bytes.
#[verifier::external_body]
fn sha256(data: &[u8]) -> (digest: Vec<u8>)
    ensures
        digest@ == sha256_digest(data@),
        digest@.len() == 32,
{
    sha2::Sha256::digest(data).to_vec()
}

/// Calls `hex::encode`, which writes each byte as two lower-case
/// hexadecimal digits, the high half first.
#[verifier::external_body]
fn hex_encode(data: &[u8]) -> (text: String)
    ensures
        text@ == hex_chars(data@),
{
    hex::encode(data)
}

/// Of two byte sequences at most one comes before the other.
pub proof fn lemma_bytes_before_asymmetric(a: Seq<u8>, b: Seq<u8>)
    requires
        bytes_before(a, b),
    ensures
        !bytes_before(b, a),
        a != b,
    decreases a.len(),
{
    if a.len() > 0 && b.len() > 0 && a[0] == b[0] {
        lemma_bytes_before_asymmetric(a.drop_first(), b.drop_first());
        if a == b {
            assert(a.drop_first() == b.drop_first());
        }
    }
}

/// Coming before is transitive.
pub proof fn lemma_bytes_before_transitive(a: Seq<u8>, b: Seq<u8>, c: Seq<u8>)
    requires
        bytes_before(a, b),
        bytes_before(b, c),
    ensures
        bytes_before(a, c),
    decreases a.len(),
{
    if a.len() > 0 && b.len() > 0 && c.len() > 0 && a[0] == b[0] && b[0] == c[0] {
        lemma_bytes_before_transitive(a.drop_first(), b.drop_first(), c.drop_first());
    }
}

/// Of two different byte sequences one comes before the other.
pub proof fn lemma_bytes_before_connected(a: Seq<u8>, b: Seq<u8>)
    ensures
        bytes_before(a, b) || bytes_before(b, a) || a == b,
    decreases a.len(),
{
    if a.len() == 0 || b.len() == 0 {
        if a.len() == 0 && b.len() == 0 {
            assert(a =~= b);
        }
    } else if a[0] == b[0] {
        lemma_bytes_before_connected(a.drop_first(), b.drop_first());
        if a.drop_first() == b.drop_first() {
            assert(a =~= seq![a[0]] + a.drop_first());
            assert(b =~= seq![b[0]] + b.drop_first());
        }
    }
}

/// The canonical order is a total order.
pub proof fn lemma_canonical_order_is_total()
    ensures
        total_ordering(canonical_order()),
{
    let leq = canonical_order();
    assert forall|x: StampModel| #[trigger] leq(x, x) by {}
    assert forall|x: StampModel, y: StampModel| #[trigger] leq(x, y) && #[trigger] leq(y, x) implies x
        == y by {
        if bytes_before(x.path, y.path) {
            lemma_bytes_before_asymmetric(x.path, y.path);
        }
        if bytes_before(y.path, x.path) {
            lemma_bytes_before_asymmetric(y.path, x.path);
        }
    }
    assert forall|x: StampModel, y: StampModel, z: StampModel| #[trigger]
        leq(x, y) && #[trigger] leq(y, z) implies leq(x, z) by {
        if bytes_before(x.path, y.path) && bytes_before(y.path, z.path) {
            lemma_bytes_before_transitive(x.path, y.path, z.path);
        }
    }
    assert forall|x: StampModel, y: StampModel| #[trigger] leq(x, y) || #[trigger] leq(y, x) by {
        lemma_bytes_before_connected(x.path, y.path);
    }
}

/// The fingerprint does not depend on the order in which the files are
/// listed: two listings of the same files, each as often as in the other,
/// have the same fingerprint.
pub proof fn lemma_fingerprint_ignores_order(first: Seq<StampModel>, second: Seq<StampModel>)
    requires
        first.to_multiset() == second.to_multiset(),
    ensures
        fingerprint_of(first) == fingerprint_of(second),
{
    lemma_canonical_order_is_total();
    first.lemma_sort_by_ensures(canonical_order());
    second.lemma_sort_by_ensures(canonical_order());
    lemma_sorted_unique(canonical(first), canonical(second), canonical_order());
}

/// A listing that is in canonical order already is its own canonical
/// order.
pub proof fn lemma_sorted_is_canonical(stamps: Seq<StampModel>, sorted: Seq<StampModel>)
    requires
        sorted_by(sorted, canonical_order()),
        sorted.to_multiset() == stamps.to_multiset(),
    ensures
        canonical(stamps) == sorted,
{
    lemma_canonical_order_is_total();
    stamps.lemma_sort_by_ensures(canonical_order());
    lemma_sorted_unique(canonical(stamps), sorted, canonical_order());
}

/// Whether `a` comes before `b` in the lexicographic order.
pub fn comes_before(a: &[u8], b: &[u8]) -> (r: bool)
    ensures
        r == bytes_before(a@, b@),
{
    let mut i: usize = 0;
    proof {
        assert(a@.skip(0) =~= a@);
        assert(b@.skip(0) =~= b@);
    }
    while i < a.len() && i < b.len()
        invariant
            i <= a.len(),
            i <= b.len(),
            bytes_before(a@, b@) == bytes_before(a@.skip(i as int), b@.skip(i as int)),
        decreases a.len() - i,
    {
        proof {
            assert(a@.skip(i as int).drop_first() =~= a@.skip(i + 1));
            assert(b@.skip(i as int).drop_first() =~= b@.skip(i + 1));
        }
        if a[i] != b[i] {
            return a[i] < b[i];
        }
        i = i + 1;
    }
    i < b.len()
}

/// Whether two byte sequences are equal.
pub fn same_bytes(a: &[u8], b: &[u8]) -> (r: bool)
    ensures
        r == (a@ == b@),
{
    if a.len() != b.len() {
        return false;
    }
    let mut i: usize = 0;
    while i < a.len()
        invariant
            i <= a.len(),
            a.len() == b.len(),
            forall|j: int| 0 <= j < i ==> a@[j] == b@[j],
        decreases a.len() - i,
    {
        if a[i] != b[i] {
            return false;
        }
        i = i + 1;
    }
    assert(a@ =~= b@);
    true
}

/// Whether `a` comes no later than `b` in the canonical order.
pub fn precedes(a: &FileStamp, b: &FileStamp) -> (r: bool)
    ensures
        r == stamp_leq(a.deep_view(), b.deep_view()),
{
    if comes_before(a.path.as_slice(), b.path.as_slice()) {
        true
    } else {
        same_bytes(a.path.as_slice(), b.path.as_slice()) && a.modified <= b.modified
    }
}

/// The mathematical counterparts of a sequence of stamps.
pub open spec fn models_of(stamps: Seq<FileStamp>) -> Seq<StampModel> {
    Seq::new(stamps.len(), |i: int| stamps[i].deep_view())
}

/// Puts the stamps into canonical order.
pub fn sort_stamps(stamps: Vec<FileStamp>) -> (sorted: Vec<FileStamp>)
    ensures
        sorted.deep_view() == canonical(stamps.deep_view()),
{
    let ghost src = stamps@;
    let ghost leq = canonical_order();
    let mut sorted: Vec<FileStamp> = Vec::new();
    proof {
        lemma_canonical_order_is_total();
        assert(models_of(src.take(0)) =~= Seq::<StampModel>::empty());
        assert(models_of(sorted@) =~= Seq::<StampModel>::empty());
    }
    for stamp in it: stamps
        invariant
            it.seq() == src,
            leq == canonical_order(),
            total_ordering(leq),
            sorted_by(models_of(sorted@), leq),
            models_of(sorted@).to_multiset() == models_of(src.take(it.index() as int)).to_multiset(),
    {
        let ghost i = it.index() as int;
        let ghost before = models_of(sorted@);
        let ghost fresh = stamp.deep_view();
        let mut at: usize = 0;
        while at < sorted.len() && precedes(&sorted[at], &stamp)
            invariant
                at <= sorted.len(),
                before == models_of(sorted@),
                fresh == stamp.deep_view(),
                forall|j: int| 0 <= j < at ==> stamp_leq(#[trigger] before[j], fresh),
            decreases sorted.len() - at,
        {
            at = at + 1;
        }
        sorted.insert(at, stamp);
        proof {
            let after = models_of(sorted@);
            assert(after =~= before.insert(at as int, fresh));
            to_multiset_insert(before, at as int, fresh);
            assert(models_of(src.take(i + 1)) =~= models_of(src.take(i)).push(fresh));
            to_multiset_build(models_of(src.take(i)), fresh);
            assert forall|x: int, y: int| 0 <= x < y < after.len() implies #[trigger] leq(
                after[x],
                after[y],
            ) by {
                if y < at {
                    assert(after[x] == before[x] && after[y] == before[y]);
                    assert(leq(before[x], before[y]));
                } else if y == at {
                    assert(after[x] == before[x]);
                } else if x < at {
                    assert(after[x] == before[x] && after[y] == before[y - 1]);
                    if x == y - 1 {
                    } else {
                        assert(leq(before[x], before[y - 1]));
                    }
                } else if x == at {
                    assert(after[y] == before[y - 1]);
                    assert(!stamp_leq(before[at as int], fresh));
                    assert(leq(before[at as int], fresh) || leq(fresh, before[at as int]));
                    if y - 1 > at {
                        assert(leq(before[at as int], before[y - 1]));
                    }
                    assert(leq(fresh, before[at as int]) && leq(before[at as int], before[y - 1])
                        ==> leq(fresh, before[y - 1]));
                } else {
                    assert(after[x] == before[x - 1] && after[y] == before[y - 1]);
                    assert(leq(before[x - 1], before[y - 1]));
                }
            }
        }
    }
    proof {
        assert(src.take(src.len() as int) =~= src);
        assert(models_of(sorted@) =~= sorted.deep_view());
        assert(models_of(src) =~= stamps.deep_view());
        lemma_sorted_is_canonical(stamps.deep_view(), sorted.deep_view());
    }
    sorted
}

/// Appends the decimal notation of `n` in ASCII to `out`.
pub fn push_decimal_bytes(out: &mut Vec<u8>, n: u64)
    ensures
        final(out)@ == old(out)@ + decimal_bytes(n as nat),
    decreases n,
{
    if n >= 10 {
        push_decimal_bytes(out, n / 10);
    }
    out.push(48 + (n % 10) as u8);
    proof {
        assert(out@ =~= old(out)@ + decimal_bytes(n as nat));
    }
}

/// Appends the bytes of `part` to `out`.
fn push_bytes(out: &mut Vec<u8>, part: &[u8])
    ensures
        final(out)@ == old(out)@ + part@,
{
    let mut i: usize = 0;
    proof {
        assert(part@.take(0) =~= Seq::<u8>::empty());
        assert(out@ =~= old(out)@ + part@.take(0));
    }
    while i < part.len()
        invariant
            i <= part.len(),
            out@ == old(out)@ + part@.take(i as int),
        decreases part.len() - i,
    {
        out.push(part[i]);
        proof {
            assert(out@ =~= old(out)@ + part@.take(i + 1));
        }
        i = i + 1;
    }
    proof {
        assert(part@.take(part.len() as int) =~= part@);
    }
}

/// The byte stream that the stamps contribute to the digest, in their
/// order.
pub fn stream_of(stamps: &Vec<FileStamp>) -> (stream: Vec<u8>)
    ensures
        stream@ == stamp_stream(stamps.deep_view()),
{
    let mut stream: Vec<u8> = Vec::new();
    let mut i: usize = 0;
    let ghost models = stamps.deep_view();
    proof {
        assert(models.take(0) =~= Seq::<StampModel>::empty());
    }
    while i < stamps.len()
        invariant
            i <= stamps.len(),
            models == stamps.deep_view(),
            stream@ == stamp_stream(models.take(i as int)),
        decreases stamps.len() - i,
    {
        proof {
            assert(models.take(i + 1).drop_last() =~= models.take(i as int));
            assert(models.take(i + 1).last() == stamps@[i as int].deep_view());
        }
        push_bytes(&mut stream, stamps[i].path.as_slice());
        push_decimal_bytes(&mut stream, stamps[i].modified);
        i = i + 1;
    }
    proof {
        assert(models.take(stamps.len() as int) =~= models);
    }
    stream
}

/// The fingerprint of a set of files: the SHA-256 digest, in lower-case
/// hexadecimal notation, of the paths and modification times of the files
/// in canonical order.
pub fn fingerprint(stamps: Vec<FileStamp>) -> (digest: String)
    ensures
        digest@ == fingerprint_of(stamps.deep_view()),
        digest@.len() == 64,
{
    let sorted = sort_stamps(stamps);
    let stream = stream_of(&sorted);
    let hash = sha256(stream.as_slice());
    hex_encode(hash.as_slice())
}

} // verus!
