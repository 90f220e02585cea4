//! Scanning of source text as bytes: substring search, counting of
//! non-overlapping occurrences and of lines, and decimal rendering of
//! numbers.

use vstd::prelude::*;
use vstd::string::StringExecFns;

verus! {

/// The byte that ends a line.
pub const NEWLINE: u8 = 10;

/// `needle` stands in `hay` at position `i`.
pub open spec fn matches_at(hay: Seq<u8>, needle: Seq<u8>, i: int) -> bool {
    &&& 0 <= i
    &&& i + needle.len() <= hay.len()
    &&& hay.subrange(i, i + needle.len()) == needle
}

/// `needle` stands somewhere in `hay`.
pub open spec fn occurs(hay: Seq<u8>, needle: Seq<u8>) -> bool {
    exists|i: int| matches_at(hay, needle, i)
}

/// `i` is the first position at which `needle` stands in `hay`.
pub open spec fn is_first_match(hay: Seq<u8>, needle: Seq<u8>, i: int) -> bool {
    &&& matches_at(hay, needle, i)
    &&& forall|j: int| 0 <= j < i ==> !matches_at(hay, needle, j)
}

/// The first position at which `needle` stands in `hay`.
pub open spec fn first_match(hay: Seq<u8>, needle: Seq<u8>) -> int
    recommends
        occurs(hay, needle),
{
    choose|i: int| is_first_match(hay, needle, i)
}

/// There is one first position at most.
pub proof fn lemma_first_match_is(hay: Seq<u8>, needle: Seq<u8>, i: int)
    requires
        is_first_match(hay, needle, i),
    ensures
        occurs(hay, needle),
        first_match(hay, needle) == i,
{
    let j = first_match(hay, needle);
    assert(is_first_match(hay, needle, j));
    if i < j {
        assert(!matches_at(hay, needle, i));
    } else if j < i {
        assert(!matches_at(hay, needle, j));
    }
}

/// The number of non-overlapping occurrences of `needle` in `hay` from
/// position `i` on, found from left to right. An empty needle has none.
pub open spec fn occurrences_from(hay: Seq<u8>, needle: Seq<u8>, i: int) -> nat
    decreases hay.len() - i,
{
    if needle.len() == 0 || i < 0 || i + needle.len() > hay.len() {
        0
    } else if matches_at(hay, needle, i) {
        1 + occurrences_from(hay, needle, i + needle.len())
    } else {
        occurrences_from(hay, needle, i + 1)
    }
}

/// The number of non-overlapping occurrences of `needle` in `hay`.
pub open spec fn occurrences(hay: Seq<u8>, needle: Seq<u8>) -> nat {
    occurrences_from(hay, needle, 0)
}

/// The number of line ends in `text`.
pub open spec fn newlines(text: Seq<u8>) -> nat
    decreases text.len(),
{
    if text.len() == 0 {
        0
    } else {
        newlines(text.drop_last()) + if text.last() == NEWLINE {
            1nat
        } else {
            0nat
        }
    }
}

/// The number of lines of `text`: one per line end, and one more for a last
/// line that no line end closes.
pub open spec fn line_count(text: Seq<u8>) -> nat {
    newlines(text) + if text.len() > 0 && text.last() != NEWLINE {
        1nat
    } else {
        0nat
    }
}

/// The one-based number of the line that position `i` of `text` lies on.
pub open spec fn line_of(text: Seq<u8>, i: int) -> nat {
    newlines(text.take(i)) + 1
}

/// The number of line ends grows with the text.
pub proof fn lemma_newlines_bounded(text: Seq<u8>)
    ensures
        newlines(text) <= text.len(),
    decreases text.len(),
{
    if text.len() > 0 {
        lemma_newlines_bounded(text.drop_last());
    }
}

/// A text has at most as many lines as bytes.
pub proof fn lemma_line_count_bounded(text: Seq<u8>)
    ensures
        line_count(text) <= text.len(),
{
    if text.len() > 0 {
        lemma_newlines_bounded(text.drop_last());
    }
}

/// Whether `needle` stands in `hay` at position `i`.
pub fn matches_here(hay: &[u8], needle: &[u8], i: usize) -> (r: bool)
    requires
        i + needle.len() <= hay.len(),
    ensures
        r == matches_at(hay@, needle@, i as int),
{
    let n = needle.len();
    let mut k: usize = 0;
    while k < n
        invariant
            k <= n,
            n == needle.len(),
            i + n <= hay.len(),
            forall|j: int| 0 <= j < k ==> hay@[i + j] == needle@[j],
        decreases n - k,
    {
        if hay[i + k] != needle[k] {
            proof {
                let window = hay@.subrange(i as int, i + n);
                assert(window[k as int] == hay@[i + k]);
            }
            return false;
        }
        k = k + 1;
    }
    proof {
        assert(hay@.subrange(i as int, i + n) =~= needle@);
    }
    true
}

/// The first position at which `needle` stands in `hay`, if there is one.
pub fn find(hay: &[u8], needle: &[u8]) -> (r: Option<usize>)
    ensures
        match r {
            Some(i) => is_first_match(hay@, needle@, i as int),
            None => !occurs(hay@, needle@),
        },
{
    if needle.len() > hay.len() {
        return None;
    }
    let last = hay.len() - needle.len();
    let mut i: usize = 0;
    loop
        invariant
            needle.len() <= hay.len(),
            last == hay.len() - needle.len(),
            i <= last,
            forall|j: int| 0 <= j < i ==> !matches_at(hay@, needle@, j),
        decreases last - i,
    {
        if matches_here(hay, needle, i) {
            return Some(i);
        }
        if i == last {
            return None;
        }
        i = i + 1;
    }
}

/// The number of non-overlapping occurrences of `needle` in `hay`.
pub fn count_matches(hay: &[u8], needle: &[u8]) -> (r: usize)
    ensures
        r as nat == occurrences(hay@, needle@),
{
    let n = needle.len();
    if n == 0 || n > hay.len() {
        return 0;
    }
    let last = hay.len() - n;
    let mut i: usize = 0;
    let mut count: usize = 0;
    while i <= last
        invariant
            0 < n <= hay.len(),
            n == needle.len(),
            last == hay.len() - n,
            count <= i,
            count as nat + occurrences_from(hay@, needle@, i as int) == occurrences(hay@, needle@),
        decreases hay.len() - i,
    {
        if matches_here(hay, needle, i) {
            count = count + 1;
            i = i + n;
        } else {
            i = i + 1;
        }
    }
    count
}

/// The number of line ends among the first `end` bytes of `text`.
pub fn count_newlines(text: &[u8], end: usize) -> (r: usize)
    requires
        end <= text.len(),
    ensures
        r as nat == newlines(text@.take(end as int)),
        r <= end,
{
    let mut i: usize = 0;
    let mut count: usize = 0;
    proof {
        assert(text@.take(0) =~= Seq::<u8>::empty());
    }
    while i < end
        invariant
            i <= end <= text.len(),
            count <= i,
            count as nat == newlines(text@.take(i as int)),
        decreases end - i,
    {
        proof {
            assert(text@.take(i + 1).drop_last() =~= text@.take(i as int));
        }
        if text[i] == NEWLINE {
            count = count + 1;
        }
        i = i + 1;
    }
    count
}

/// The number of lines of `text`.
pub fn count_lines(text: &[u8]) -> (r: usize)
    ensures
        r as nat == line_count(text@),
{
    let len = text.len();
    let ended = count_newlines(text, len);
    proof {
        assert(text@.take(len as int) =~= text@);
        lemma_line_count_bounded(text@);
    }
    if len > 0 && text[len - 1] != NEWLINE {
        ended + 1
    } else {
        ended
    }
}

/// The character of a decimal digit.
pub open spec fn digit_char(d: nat) -> char
    recommends
        d < 10,
{
    if d == 0 {
        '0'
    } else if d == 1 {
        '1'
    } else if d == 2 {
        '2'
    } else if d == 3 {
        '3'
    } else if d == 4 {
        '4'
    } else if d == 5 {
        '5'
    } else if d == 6 {
        '6'
    } else if d == 7 {
        '7'
    } else if d == 8 {
        '8'
    } else {
        '9'
    }
}

/// The decimal notation of `n`, without leading zeros.
pub open spec fn decimal(n: nat) -> Seq<char>
    decreases n,
{
    if n < 10 {
        seq![digit_char(n)]
    } else {
        decimal(n / 10).push(digit_char(n % 10))
    }
}

/// The text of one decimal digit.
fn digit_text(d: u8) -> (r: &'static str)
    requires
        d < 10,
    ensures
        r@ == seq![digit_char(d as nat)],
{
    proof {
        reveal_strlit("0");
        reveal_strlit("1");
        reveal_strlit("2");
        reveal_strlit("3");
        reveal_strlit("4");
        reveal_strlit("5");
        reveal_strlit("6");
        reveal_strlit("7");
        reveal_strlit("8");
        reveal_strlit("9");
    }
    let r = if d == 0 {
        "0"
    } else if d == 1 {
        "1"
    } else if d == 2 {
        "2"
    } else if d == 3 {
        "3"
    } else if d == 4 {
        "4"
    } else if d == 5 {
        "5"
    } else if d == 6 {
        "6"
    } else if d == 7 {
        "7"
    } else if d == 8 {
        "8"
    } else {
        "9"
    };
    assert(r@ =~= seq![digit_char(d as nat)]);
    r
}

/// The digits of `n`, least significant first.
spec fn digits_reversed(n: nat) -> Seq<u8>
    decreases n,
{
    if n < 10 {
        seq![n as u8]
    } else {
        seq![(n % 10) as u8] + digits_reversed(n / 10)
    }
}

/// The characters of the last `k` entries of `digits`, most significant
/// first.
spec fn rendered(digits: Seq<u8>, k: nat) -> Seq<char>
    decreases k,
{
    if k == 0 || k > digits.len() {
        Seq::empty()
    } else {
        seq![digit_char(digits[digits.len() - 1] as nat)] + rendered(digits.drop_last(), (k - 1) as nat)
    }
}

/// Rendering all reversed digits of `n` gives its decimal notation.
proof fn lemma_rendered_is_decimal(n: nat)
    ensures
        rendered(digits_reversed(n), digits_reversed(n).len()) == decimal(n),
        digits_reversed(n).len() >= 1,
    decreases n,
{
    let d = digits_reversed(n);
    if n < 10 {
        assert(d.drop_last() =~= Seq::<u8>::empty());
        assert(rendered(d.drop_last(), 0) =~= Seq::<char>::empty());
        assert(rendered(d, 1) =~= seq![digit_char(n)]);
    } else {
        let rest = digits_reversed(n / 10);
        lemma_rendered_is_decimal(n / 10);
        lemma_rendered_with_front(rest, (n % 10) as u8, rest.len());
        assert(d =~= seq![(n % 10) as u8] + rest);
        lemma_rendered_all_with_front(rest, (n % 10) as u8);
    }
}

/// An entry in front of the digits does not change the rendering of the
/// last `k` of them.
proof fn lemma_rendered_with_front(digits: Seq<u8>, front: u8, k: nat)
    requires
        k <= digits.len(),
    ensures
        rendered(seq![front] + digits, k) == rendered(digits, k),
    decreases k,
{
    let all = seq![front] + digits;
    if k > 0 {
        assert(all.drop_last() =~= seq![front] + digits.drop_last());
        assert(all[all.len() - 1] == digits[digits.len() - 1]);
        lemma_rendered_with_front(digits.drop_last(), front, (k - 1) as nat);
    }
}

/// Rendering everything, front entry included, ends with the front entry's
/// character.
proof fn lemma_rendered_all_with_front(digits: Seq<u8>, front: u8)
    ensures
        rendered(seq![front] + digits, digits.len() + 1) == rendered(digits, digits.len()).push(
            digit_char(front as nat),
        ),
    decreases digits.len(),
{
    let all = seq![front] + digits;
    if digits.len() == 0 {
        assert(all.drop_last() =~= Seq::<u8>::empty());
        assert(rendered(all.drop_last(), 0) =~= Seq::<char>::empty());
        assert(rendered(digits, 0) =~= Seq::<char>::empty());
        assert(rendered(all, 1) =~= seq![digit_char(front as nat)]);
        assert(rendered(digits, 0).push(digit_char(front as nat)) =~= seq![
            digit_char(front as nat),
        ]);
    } else {
        assert(all.drop_last() =~= seq![front] + digits.drop_last());
        assert(all[all.len() - 1] == digits[digits.len() - 1]);
        lemma_rendered_all_with_front(digits.drop_last(), front);
        assert(rendered(all, digits.len() + 1) =~= rendered(digits, digits.len()).push(
            digit_char(front as nat),
        ));
    }
}

/// Appends the decimal notation of `n` to `out`.
pub fn push_decimal(out: &mut String, n: u64)
    ensures
        final(out)@ == old(out)@ + decimal(n as nat),
{
    let mut digits: Vec<u8> = Vec::new();
    let mut rest = n;
    loop
        invariant_except_break
            digits@.len() <= 20,
            digits@ + digits_reversed(rest as nat) == digits_reversed(n as nat),
        ensures
            digits@ == digits_reversed(n as nat),
        decreases rest,
    {
        if rest < 10 {
            digits.push(rest as u8);
            break ;
        }
        proof {
            assert(digits@.push((rest % 10) as u8) + digits_reversed((rest / 10) as nat)
                =~= digits@ + digits_reversed(rest as nat));
            lemma_digits_reversed_len(n as nat);
            lemma_digits_reversed_len((rest / 10) as nat);
        }
        digits.push((rest % 10) as u8);
        rest = rest / 10;
    }
    let ghost start = out@;
    let ghost all = digits@;
    let mut k: usize = digits.len();
    proof {
        lemma_rendered_is_decimal(n as nat);
        lemma_digits_reversed_len(n as nat);
        assert(all.take(k as int) =~= all);
    }
    while k > 0
        invariant
            k <= digits.len(),
            digits@ == all,
            forall|j: int| 0 <= j < all.len() ==> all[j] < 10,
            out@ + rendered(all.take(k as int), k as nat) == start + rendered(all, all.len()),
        decreases k,
    {
        let d = digits[k - 1];
        proof {
            assert(all.take(k as int).drop_last() =~= all.take(k - 1));
        }
        out.append(digit_text(d));
        k = k - 1;
    }
    proof {
        assert(rendered(all.take(0), 0) =~= Seq::<char>::empty());
    }
}

/// The reversed digits of a 64-bit number are at most twenty, each below
/// ten.
proof fn lemma_digits_reversed_len(n: nat)
    requires
        n <= u64::MAX,
    ensures
        digits_reversed(n).len() <= 20,
        forall|j: int| 0 <= j < digits_reversed(n).len() ==> digits_reversed(n)[j] < 10,
{
    reveal_with_fuel(digits_reversed, 21);
}

/// The decimal notation of `n`.
pub fn decimal_string(n: u64) -> (r: String)
    ensures
        r@ == decimal(n as nat),
{
    let mut out = String::new();
    push_decimal(&mut out, n);
    assert(out@ =~= decimal(n as nat));
    out
}

} // verus!
