//! Strings of bytes: comparing, searching, joining and writing numbers.
use vstd::prelude::*;
use vstd::string::StringSliceAdditionalSpecFns;

verus! {

pub const SPACE: u8 = 0x20;

pub const COLON: u8 = 0x3A;

/// The place of the first byte at or after `from` that belongs to `stops`,
/// or the length of `s` where no such byte follows.
pub open spec fn first_of(s: Seq<u8>, from: int, stops: Set<u8>) -> int
    decreases s.len() - from,
{
    if from >= s.len() {
        s.len() as int
    } else if stops.contains(s[from]) {
        from
    } else {
        first_of(s, from + 1, stops)
    }
}

/// `first_of` is the least stopping place: nothing before it stops.
pub proof fn lemma_first_of(s: Seq<u8>, from: int, stops: Set<u8>)
    requires
        0 <= from <= s.len(),
    ensures
        from <= first_of(s, from, stops) <= s.len(),
        forall|i: int| from <= i < first_of(s, from, stops) ==> !stops.contains(#[trigger] s[i]),
        first_of(s, from, stops) < s.len() ==> stops.contains(s[first_of(s, from, stops)]),
    decreases s.len() - from,
{
    if from < s.len() && !stops.contains(s[from]) {
        lemma_first_of(s, from + 1, stops);
    }
}

/// Any place that satisfies the three properties of `lemma_first_of` is
/// `first_of`.
pub proof fn lemma_first_of_unique(s: Seq<u8>, from: int, stops: Set<u8>, end: int)
    requires
        0 <= from <= end <= s.len(),
        forall|i: int| from <= i < end ==> !stops.contains(#[trigger] s[i]),
        end < s.len() ==> stops.contains(s[end]),
    ensures
        first_of(s, from, stops) == end,
    decreases end - from,
{
    if from < end {
        lemma_first_of_unique(s, from + 1, stops, end);
    }
}

/// The place of the first byte at or after `from` that is not `b`, or the
/// length of `s`.
pub open spec fn first_not(s: Seq<u8>, from: int, b: u8) -> int {
    first_of(s, from, all_but(b))
}

/// Every byte but `b`.
pub open spec fn all_but(b: u8) -> Set<u8> {
    Set::new(|x: u8| x != b)
}

/// `needle` lies in `hay` from place `at` on.
pub open spec fn occurs_at(hay: Seq<u8>, needle: Seq<u8>, at: int) -> bool {
    &&& 0 <= at
    &&& at + needle.len() <= hay.len()
    &&& hay.subrange(at, at + needle.len()) == needle
}

/// `needle` lies somewhere in `hay`.
pub open spec fn occurs_in(hay: Seq<u8>, needle: Seq<u8>) -> bool {
    exists|at: int| occurs_at(hay, needle, at)
}

/// The bytes of an ASCII literal.
pub open spec fn ascii(s: &str) -> Seq<u8> {
    s.spec_bytes()
}

/// The decimal digits of `n`, most significant first, without leading zeros.
pub open spec fn decimal(n: nat) -> Seq<u8>
    decreases n,
{
    if n < 10 {
        seq![(0x30 + n) as u8]
    } else {
        decimal(n / 10).push((0x30 + n % 10) as u8)
    }
}

pub fn bytes_eq(a: &[u8], b: &[u8]) -> (same: bool)
    ensures
        same == (a@ == b@),
{
    if a.len() != b.len() {
        return false;
    }
    let mut i: usize = 0;
    while i < a.len()
        invariant
            i <= a.len(),
            a.len() == b.len(),
            a@.subrange(0, i as int) == b@.subrange(0, i as int),
        decreases a.len() - i,
    {
        if a[i] != b[i] {
            assert(a@[i as int] != b@[i as int]);
            return false;
        }
        assert(a@.subrange(0, i + 1) == a@.subrange(0, i as int).push(a@[i as int]));
        assert(b@.subrange(0, i + 1) == b@.subrange(0, i as int).push(b@[i as int]));
        i += 1;
    }
    assert(a@.subrange(0, i as int) == a@);
    assert(b@.subrange(0, i as int) == b@);
    true
}

/// Appends `part` to `out`.
pub fn append(out: &mut Vec<u8>, part: &[u8])
    ensures
        final(out)@ == old(out)@ + part@,
{
    let mut i: usize = 0;
    while i < part.len()
        invariant
            i <= part.len(),
            out@ == old(out)@ + part@.subrange(0, i as int),
        decreases part.len() - i,
    {
        out.push(part[i]);
        assert(part@.subrange(0, i + 1) == part@.subrange(0, i as int).push(part@[i as int]));
        i += 1;
    }
    assert(part@.subrange(0, i as int) == part@);
}

/// A copy of the bytes of `s` from `from` up to `to`.
pub fn copy_range(s: &[u8], from: usize, to: usize) -> (out: Vec<u8>)
    requires
        from <= to <= s.len(),
    ensures
        out@ == s@.subrange(from as int, to as int),
{
    let mut out: Vec<u8> = Vec::new();
    let mut i: usize = from;
    while i < to
        invariant
            from <= i <= to <= s.len(),
            out@ == s@.subrange(from as int, i as int),
        decreases to - i,
    {
        out.push(s[i]);
        assert(s@.subrange(from as int, i + 1) == s@.subrange(from as int, i as int).push(
            s@[i as int],
        ));
        i += 1;
    }
    out
}

/// Whether `b` is one of `stops`.
pub fn is_one_of(stops: &[u8], b: u8) -> (found: bool)
    ensures
        found == stops@.contains(b),
{
    let mut i: usize = 0;
    while i < stops.len()
        invariant
            i <= stops.len(),
            forall|k: int| 0 <= k < i ==> stops@[k] != b,
        decreases stops.len() - i,
    {
        if stops[i] == b {
            return true;
        }
        i += 1;
    }
    false
}

/// Scans from `from` to the first byte that is one of `stops`.
pub fn find_first(s: &[u8], from: usize, stops: &[u8]) -> (end: usize)
    requires
        from <= s.len(),
    ensures
        end == first_of(s@, from as int, stops@.to_set()),
        from <= end <= s.len(),
{
    let mut i: usize = from;
    while i < s.len() && !is_one_of(stops, s[i])
        invariant
            from <= i <= s.len(),
            forall|k: int| from <= k < i ==> !stops@.to_set().contains(#[trigger] s@[k]),
        decreases s.len() - i,
    {
        i += 1;
    }
    proof {
        lemma_first_of_unique(s@, from as int, stops@.to_set(), i as int);
    }
    i
}

/// Scans from `from` over a run of the byte `b`.
pub fn skip_run(s: &[u8], from: usize, b: u8) -> (end: usize)
    requires
        from <= s.len(),
    ensures
        end == first_not(s@, from as int, b),
        from <= end <= s.len(),
{
    let mut i: usize = from;
    while i < s.len() && s[i] == b
        invariant
            from <= i <= s.len(),
            forall|k: int| from <= k < i ==> !all_but(b).contains(#[trigger] s@[k]),
        decreases s.len() - i,
    {
        i += 1;
    }
    proof {
        lemma_first_of_unique(s@, from as int, all_but(b), i as int);
    }
    i
}

/// Whether `needle` lies in `hay` from place `at` on.
pub fn matches_at(hay: &[u8], needle: &[u8], at: usize) -> (found: bool)
    ensures
        found == occurs_at(hay@, needle@, at as int),
{
    if at > hay.len() || needle.len() > hay.len() - at {
        return false;
    }
    let mut i: usize = 0;
    while i < needle.len()
        invariant
            i <= needle.len(),
            at + needle.len() <= hay.len(),
            hay@.subrange(at as int, at + i) == needle@.subrange(0, i as int),
        decreases needle.len() - i,
    {
        if hay[at + i] != needle[i] {
            assert(hay@.subrange(at as int, at + needle.len())[i as int] != needle@[i as int]);
            return false;
        }
        assert(hay@.subrange(at as int, at + i + 1) == hay@.subrange(at as int, at + i).push(
            hay@[at + i],
        ));
        assert(needle@.subrange(0, i + 1) == needle@.subrange(0, i as int).push(needle@[i as int]));
        i += 1;
    }
    assert(needle@.subrange(0, i as int) == needle@);
    true
}

/// Whether `needle` lies somewhere in `hay`.
pub fn contains(hay: &[u8], needle: &[u8]) -> (found: bool)
    ensures
        found == occurs_in(hay@, needle@),
{
    if needle.len() > hay.len() {
        return false;
    }
    let last: usize = hay.len() - needle.len();
    let mut at: usize = 0;
    loop
        invariant
            last == hay.len() - needle.len(),
            at <= last,
            forall|k: int| 0 <= k < at ==> !occurs_at(hay@, needle@, k),
        decreases last - at,
    {
        if matches_at(hay, needle, at) {
            return true;
        }
        if at == last {
            return false;
        }
        at += 1;
    }
}

/// A blank: a space, a tab, or one of the bytes that end or feed a line.
pub open spec fn is_blank(b: u8) -> bool {
    b == SPACE || (0x09 <= b && b <= 0x0D)
}

/// The blanks.
pub open spec fn blank_bytes() -> Set<u8> {
    Set::new(|b: u8| is_blank(b))
}

/// The bytes that are no blanks.
pub open spec fn solid_bytes() -> Set<u8> {
    Set::new(|b: u8| !is_blank(b))
}

/// The words of `s` from `at` on: the runs of bytes between blanks.
pub open spec fn words_from(s: Seq<u8>, at: int) -> Seq<Seq<u8>>
    decreases s.len() - at,
    via words_from_decreases
{
    let start = first_of(s, at, solid_bytes());
    if at < 0 || start >= s.len() {
        seq![]
    } else {
        let end = first_of(s, start, blank_bytes());
        seq![s.subrange(start, end)] + words_from(s, end)
    }
}

#[via_fn]
proof fn words_from_decreases(s: Seq<u8>, at: int) {
    if 0 <= at <= s.len() {
        lemma_word_bounds(s, at);
    }
}

/// Where a word begins and ends.
pub proof fn lemma_word_bounds(s: Seq<u8>, at: int)
    requires
        0 <= at <= s.len(),
    ensures
        at <= first_of(s, at, solid_bytes()) <= s.len(),
        first_of(s, at, solid_bytes()) < s.len() ==> first_of(s, at, solid_bytes()) < first_of(
            s,
            first_of(s, at, solid_bytes()),
            blank_bytes(),
        ) <= s.len(),
{
    let start = first_of(s, at, solid_bytes());
    lemma_first_of(s, at, solid_bytes());
    if start < s.len() {
        lemma_first_of(s, start, blank_bytes());
    }
}

/// The words of `s`.
pub open spec fn words(s: Seq<u8>) -> Seq<Seq<u8>> {
    words_from(s, 0)
}

/// `s` without the blanks that it begins with.
pub open spec fn trimmed_start(s: Seq<u8>) -> Seq<u8> {
    s.skip(first_of(s, 0, solid_bytes()))
}

/// `s` without the blanks that it ends with.
pub open spec fn trimmed_end(s: Seq<u8>) -> Seq<u8>
    decreases s.len(),
{
    if s.len() > 0 && is_blank(s.last()) {
        trimmed_end(s.drop_last())
    } else {
        s
    }
}

/// `s` without the blanks at both of its ends.
pub open spec fn trimmed(s: Seq<u8>) -> Seq<u8> {
    trimmed_end(trimmed_start(s))
}

/// `s` with each capital letter of ASCII made small.
pub open spec fn lowered(s: Seq<u8>) -> Seq<u8> {
    s.map_values(
        |b: u8|
            if 0x41 <= b && b <= 0x5A {
                (b + 0x20) as u8
            } else {
                b
            },
    )
}

/// The number that decimal digits write.
pub open spec fn number(s: Seq<u8>) -> int
    decreases s.len(),
{
    if s.len() == 0 {
        0
    } else {
        number(s.drop_last()) * 10 + (s.last() - 0x30)
    }
}

/// Whether each byte is a decimal digit.
pub open spec fn all_digits(s: Seq<u8>) -> bool {
    forall|i: int| 0 <= i < s.len() ==> 0x30 <= #[trigger] s[i] <= 0x39
}

/// The number that `s` writes in decimal, where it is made of digits and
/// the number is at most `limit`.
pub open spec fn number_up_to(s: Seq<u8>, limit: int) -> Option<int> {
    if s.len() > 0 && all_digits(s) && number(s) <= limit {
        Some(number(s))
    } else {
        None
    }
}

/// A number is at least the number that its first digits write.
pub proof fn lemma_number_grows(s: Seq<u8>, n: int)
    requires
        0 <= n <= s.len(),
        all_digits(s),
    ensures
        0 <= number(s.take(n)) <= number(s),
    decreases s.len() - n,
{
    if n < s.len() {
        lemma_number_grows(s, n + 1);
        assert(s.take(n + 1).drop_last() =~= s.take(n));
        assert(s.take(n + 1).last() == s[n]);
    } else {
        assert(s.take(n) =~= s);
        lemma_number_positive(s);
    }
}

/// Digits write no number below zero.
pub proof fn lemma_number_positive(s: Seq<u8>)
    requires
        all_digits(s),
    ensures
        0 <= number(s),
    decreases s.len(),
{
    if s.len() > 0 {
        assert(s.drop_last() =~= s.take(s.len() - 1));
        lemma_number_positive(s.drop_last());
    }
}

fn is_blank_byte(b: u8) -> (blank: bool)
    ensures
        blank == is_blank(b),
{
    b == SPACE || (0x09 <= b && b <= 0x0D)
}

/// The place of the first byte at or after `from` that is no blank.
pub fn skip_blanks(s: &[u8], from: usize) -> (end: usize)
    requires
        from <= s.len(),
    ensures
        end == first_of(s@, from as int, solid_bytes()),
        from <= end <= s.len(),
{
    let mut i: usize = from;
    while i < s.len() && is_blank_byte(s[i])
        invariant
            from <= i <= s.len(),
            forall|k: int| from <= k < i ==> !solid_bytes().contains(#[trigger] s@[k]),
        decreases s.len() - i,
    {
        i += 1;
    }
    proof {
        lemma_first_of_unique(s@, from as int, solid_bytes(), i as int);
    }
    i
}

/// The place of the first blank at or after `from`.
pub fn find_blank(s: &[u8], from: usize) -> (end: usize)
    requires
        from <= s.len(),
    ensures
        end == first_of(s@, from as int, blank_bytes()),
        from <= end <= s.len(),
{
    let mut i: usize = from;
    while i < s.len() && !is_blank_byte(s[i])
        invariant
            from <= i <= s.len(),
            forall|k: int| from <= k < i ==> !blank_bytes().contains(#[trigger] s@[k]),
        decreases s.len() - i,
    {
        i += 1;
    }
    proof {
        lemma_first_of_unique(s@, from as int, blank_bytes(), i as int);
    }
    i
}

/// `s` without the blanks that it begins with.
pub fn trim_start(s: &[u8]) -> (out: &[u8])
    ensures
        out@ == trimmed_start(s@),
{
    let from = skip_blanks(s, 0);
    vstd::slice::slice_subrange(s, from, s.len())
}

/// `s` without the blanks that it ends with.
pub fn trim_end(s: &[u8]) -> (out: &[u8])
    ensures
        out@ == trimmed_end(s@),
{
    let mut end: usize = s.len();
    assert(s@.take(s.len() as int) =~= s@);
    while end > 0 && is_blank_byte(s[end - 1])
        invariant
            end <= s.len(),
            trimmed_end(s@) == trimmed_end(s@.take(end as int)),
        decreases end,
    {
        assert(s@.take(end as int).drop_last() =~= s@.take(end - 1));
        end -= 1;
    }
    assert(s@.subrange(0, end as int) =~= s@.take(end as int));
    vstd::slice::slice_subrange(s, 0, end)
}

/// `s` without the blanks at both of its ends.
pub fn trim(s: &[u8]) -> (out: &[u8])
    ensures
        out@ == trimmed(s@),
{
    trim_end(trim_start(s))
}

/// The words of `s`.
pub fn split_words(s: &[u8]) -> (out: Vec<Vec<u8>>)
    ensures
        out@.map_values(|word: Vec<u8>| word@) == words(s@),
{
    let mut out: Vec<Vec<u8>> = Vec::new();
    let ghost all = words(s@);
    let mut at: usize = 0;
    loop
        invariant
            at <= s.len(),
            all == out@.map_values(|word: Vec<u8>| word@) + words_from(s@, at as int),
        ensures
            all == out@.map_values(|word: Vec<u8>| word@),
        decreases s.len() - at,
    {
        proof {
            lemma_word_bounds(s@, at as int);
        }
        let start = skip_blanks(s, at);
        if start >= s.len() {
            assert(out@.map_values(|word: Vec<u8>| word@) + Seq::<Seq<u8>>::empty() =~= out@.map_values(
                |word: Vec<u8>| word@,
            ));
            break ;
        }
        let end = find_blank(s, start);
        let word = copy_range(s, start, end);
        let ghost before = out@.map_values(|word: Vec<u8>| word@);
        out.push(word);
        proof {
            assert(out@.map_values(|word: Vec<u8>| word@) =~= before.push(word@));
            assert(before + (seq![word@] + words_from(s@, end as int)) =~= before.push(word@)
                + words_from(s@, end as int));
        }
        at = end;
    }
    out
}

/// Whether two texts are the same but for the case of their letters.
pub fn eq_ignore_case(a: &[u8], b: &[u8]) -> (same: bool)
    ensures
        same == (lowered(a@) == lowered(b@)),
{
    if a.len() != b.len() {
        assert(lowered(a@).len() != lowered(b@).len());
        return false;
    }
    let mut i: usize = 0;
    while i < a.len()
        invariant
            i <= a.len(),
            a.len() == b.len(),
            forall|k: int| 0 <= k < i ==> lowered(a@)[k] == lowered(b@)[k],
        decreases a.len() - i,
    {
        let x = if 0x41 <= a[i] && a[i] <= 0x5A {
            a[i] + 0x20
        } else {
            a[i]
        };
        let y = if 0x41 <= b[i] && b[i] <= 0x5A {
            b[i] + 0x20
        } else {
            b[i]
        };
        if x != y {
            assert(lowered(a@)[i as int] != lowered(b@)[i as int]);
            return false;
        }
        i += 1;
    }
    assert(lowered(a@) =~= lowered(b@));
    true
}

/// Reads a decimal number of at most `limit`.
pub fn parse_number(s: &[u8], limit: u64) -> (value: Option<u64>)
    requires
        limit <= u64::MAX / 16,
    ensures
        match value {
            Some(n) => number_up_to(s@, limit as int) == Some(n as int),
            None => number_up_to(s@, limit as int) is None,
        },
{
    if s.len() == 0 {
        return None;
    }
    let mut n: u64 = 0;
    let mut i: usize = 0;
    while i < s.len()
        invariant
            i <= s.len(),
            limit <= u64::MAX / 16,
            n <= limit,
            n == number(s@.take(i as int)),
            all_digits(s@.take(i as int)),
        decreases s.len() - i,
    {
        let b = s[i];
        if b < 0x30 || b > 0x39 {
            return None;
        }
        proof {
            assert(s@.take(i + 1).drop_last() =~= s@.take(i as int));
            assert(s@.take(i + 1).last() == b);
        }
        let next: u64 = n * 10 + ((b - 0x30) as u64);
        if next > limit {
            proof {
                if all_digits(s@) {
                    lemma_number_grows(s@, i + 1);
                }
            }
            return None;
        }
        n = next;
        i += 1;
    }
    assert(s@.take(i as int) =~= s@);
    Some(n)
}

/// Writes `n` in decimal.
pub fn decimal_bytes(n: usize) -> (out: Vec<u8>)
    ensures
        out@ == decimal(n as nat),
    decreases n,
{
    if n < 10 {
        let digit: u8 = 0x30 + (n as u8);
        let mut out: Vec<u8> = Vec::new();
        out.push(digit);
        assert(out@ == seq![digit]);
        out
    } else {
        let mut out = decimal_bytes(n / 10);
        let digit: u8 = 0x30 + ((n % 10) as u8);
        out.push(digit);
        out
    }
}

} // verus!
