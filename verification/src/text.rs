use vstd::prelude::*;
use vstd::utf8::{encode_utf8, is_ascii_chars, is_ascii_chars_encode_utf8};

verus! {

// ---------------------------------------------------------------------------
// Characters of a string
// ---------------------------------------------------------------------------

/// The characters of `s`, one by one.
pub fn str_chars(s: &str) -> (v: Vec<char>)
    ensures
        v@ == s@,
{
    let mut v: Vec<char> = Vec::new();
    for c in it: s.chars()
        invariant
            v@ == it.seq().take(it.index() as int),
    {
        v.push(c);
    }
    v
}

// ---------------------------------------------------------------------------
// Prefixes and infixes
// ---------------------------------------------------------------------------

/// `s` begins with `prefix`.
pub open spec fn has_prefix(s: Seq<char>, prefix: Seq<char>) -> bool {
    prefix.len() <= s.len() && s.take(prefix.len() as int) == prefix
}

/// `needle` occurs in `s` at position `i`.
pub open spec fn occurs_at(s: Seq<char>, needle: Seq<char>, i: int) -> bool {
    0 <= i && i + needle.len() <= s.len() && s.subrange(i, i + needle.len()) == needle
}

/// `needle` occurs somewhere in `s`.
pub open spec fn has_infix(s: Seq<char>, needle: Seq<char>) -> bool {
    exists|i: int| occurs_at(s, needle, i)
}

/// Whether `needle` occurs in `s` at position `i`.
pub fn occurs_at_exec(s: &Vec<char>, needle: &Vec<char>, i: usize) -> (r: bool)
    ensures
        r == occurs_at(s@, needle@, i as int),
{
    let n = s.len();
    if i > n || needle.len() > n - i {
        return false;
    }
    let mut k: usize = 0;
    while k < needle.len()
        invariant
            n == s@.len(),
            i + needle@.len() <= s@.len(),
            k <= needle@.len(),
            forall|j: int| 0 <= j < k ==> s@[i + j] == needle@[j],
        decreases needle@.len() - k,
    {
        if s[i + k] != needle[k] {
            assert(s@.subrange(i as int, i + needle@.len())[k as int] != needle@[k as int]);
            return false;
        }
        k = k + 1;
    }
    assert(s@.subrange(i as int, i + needle@.len()) =~= needle@);
    true
}

/// Whether `needle` occurs somewhere in `s`.
pub fn has_infix_exec(s: &Vec<char>, needle: &Vec<char>) -> (r: bool)
    ensures
        r == has_infix(s@, needle@),
{
    if needle.len() > s.len() {
        assert forall|i: int| !occurs_at(s@, needle@, i) by {}
        return false;
    }
    let last = s.len() - needle.len();
    let mut i: usize = 0;
    loop
        invariant
            last + needle@.len() == s@.len(),
            i <= last,
            forall|j: int| 0 <= j < i ==> !occurs_at(s@, needle@, j),
        ensures
            forall|j: int| 0 <= j <= last ==> !occurs_at(s@, needle@, j),
        decreases last - i,
    {
        if occurs_at_exec(s, needle, i) {
            return true;
        }
        if i == last {
            break;
        }
        i = i + 1;
    }
    assert forall|j: int| !occurs_at(s@, needle@, j) by {
        if 0 <= j && j + needle@.len() <= s@.len() {
            assert(j <= last);
        }
    }
    false
}

// ---------------------------------------------------------------------------
// Decimal numbers
// ---------------------------------------------------------------------------

/// The character of the decimal digit `d`.
pub open spec fn digit_char(d: nat) -> char {
    (d + 48) as char
}

/// The decimal text of `n`, without sign or leading zeros.
pub open spec fn decimal_chars(n: nat) -> Seq<char>
    decreases n,
{
    if n < 10 {
        seq![digit_char(n)]
    } else {
        decimal_chars(n / 10).push(digit_char(n % 10))
    }
}

fn digit_str(d: usize) -> (s: &'static str)
    requires
        d < 10,
    ensures
        s@ == seq![digit_char(d as nat)],
{
    proof {
        reveal_strlit("0");
        reveal_strlit("1");
        reveal_strlit("2");
        reveal_strlit("3");
        reveal_strlit("4");
        reveal_strlit("5");
        reveal_strlit("6");
        reveal_strlit("7");
        reveal_strlit("8");
        reveal_strlit("9");
    }
    if d == 0 {
        "0"
    } else if d == 1 {
        "1"
    } else if d == 2 {
        "2"
    } else if d == 3 {
        "3"
    } else if d == 4 {
        "4"
    } else if d == 5 {
        "5"
    } else if d == 6 {
        "6"
    } else if d == 7 {
        "7"
    } else if d == 8 {
        "8"
    } else {
        "9"
    }
}

/// Appends the decimal text of `n` to `out`.
pub fn push_decimal(out: &mut String, n: usize)
    ensures
        final(out)@ == old(out)@ + decimal_chars(n as nat),
    decreases n,
{
    if n < 10 {
        out.append(digit_str(n));
    } else {
        push_decimal(out, n / 10);
        out.append(digit_str(n % 10));
        proof {
            assert(decimal_chars(n as nat) == decimal_chars((n / 10) as nat).push(
                digit_char((n % 10) as nat),
            ));
        }
    }
}

/// The bytes of the decimal text of `n`.
pub open spec fn decimal_bytes(n: nat) -> Seq<u8>
    decreases n,
{
    if n < 10 {
        seq![(n + 48) as u8]
    } else {
        decimal_bytes(n / 10).push(((n % 10) + 48) as u8)
    }
}

proof fn lemma_decimal_bytes(n: nat)
    ensures
        decimal_bytes(n).len() == decimal_chars(n).len(),
        decimal_bytes(n).len() > 0,
        forall|i: int|
            0 <= i < decimal_chars(n).len() ==> {
                &&& decimal_bytes(n)[i] == decimal_chars(n)[i] as u8
                &&& is_digit_byte(#[trigger] decimal_bytes(n)[i])
                &&& '0' <= decimal_chars(n)[i] <= '9'
            },
        digits_value(decimal_bytes(n)) == n,
    decreases n,
{
    if n >= 10 {
        lemma_decimal_bytes(n / 10);
        assert(decimal_bytes(n).drop_last() =~= decimal_bytes(n / 10));
        assert(decimal_bytes(n).last() == ((n % 10) + 48) as u8);
        assert(digits_value(decimal_bytes(n)) == digits_value(decimal_bytes(n / 10)) * 10 + (
        n % 10));
        assert((n / 10) * 10 + n % 10 == n);
    } else {
        assert(decimal_bytes(n).drop_last() =~= Seq::<u8>::empty());
        assert(digits_value(Seq::<u8>::empty()) == 0);
        assert forall|i: int| 0 <= i < decimal_chars(n).len() implies {
            &&& decimal_bytes(n)[i] == decimal_chars(n)[i] as u8
            &&& is_digit_byte(#[trigger] decimal_bytes(n)[i])
            &&& '0' <= decimal_chars(n)[i] <= '9'
        } by {
            if i < decimal_chars(n).len() - 1 {
                assert(decimal_bytes(n)[i] == decimal_bytes(n / 10)[i]);
                assert(decimal_chars(n)[i] == decimal_chars(n / 10)[i]);
            }
        }
    }
}

/// The decimal text of `n`, read back as a `usize`, is `n`.
pub proof fn lemma_decimal_text_reads_back(n: usize)
    ensures
        parsed_usize(encode_utf8(decimal_chars(n as nat))) == Some(n),
{
    let c = decimal_chars(n as nat);
    lemma_decimal_bytes(n as nat);
    assert forall|i: int| 0 <= i < c.len() implies '\0' <= #[trigger] c[i] <= '\u{7f}' by {
        assert(is_digit_byte(decimal_bytes(n as nat)[i]));
    }
    assert(is_ascii_chars(c));
    is_ascii_chars_encode_utf8(c);
    assert(encode_utf8(c) =~= decimal_bytes(n as nat));
    let b = decimal_bytes(n as nat);
    assert(is_digit_byte(b[0]));
    assert(unsigned_digits(b) == b);
}

/// `b` is one of the bytes `0`..`9`.
pub open spec fn is_digit_byte(b: u8) -> bool {
    48 <= b <= 57
}

/// The number that the decimal digits `d` write.
pub open spec fn digits_value(d: Seq<u8>) -> nat
    decreases d.len(),
{
    if d.len() == 0 {
        0
    } else {
        digits_value(d.drop_last()) * 10 + (d.last() - 48) as nat
    }
}

/// `b` without one leading `+`, if it has one.
pub open spec fn unsigned_digits(b: Seq<u8>) -> Seq<u8> {
    if b.len() > 0 && b[0] == 43 {
        b.drop_first()
    } else {
        b
    }
}

/// What reading `b` as an unsigned decimal `usize` gives: an optional `+`,
/// then one or more digits, whose value fits in a `usize`.
pub open spec fn parsed_usize(b: Seq<u8>) -> Option<usize> {
    let d = unsigned_digits(b);
    if d.len() > 0 && (forall|i: int| 0 <= i < d.len() ==> is_digit_byte(#[trigger] d[i]))
        && digits_value(d) <= usize::MAX {
        Some(digits_value(d) as usize)
    } else {
        None
    }
}

proof fn lemma_digits_value_prefix_grows(d: Seq<u8>, k: int, j: int)
    requires
        0 <= k <= j <= d.len(),
        forall|i: int| 0 <= i < d.len() ==> is_digit_byte(#[trigger] d[i]),
    ensures
        digits_value(d.take(k)) <= digits_value(d.take(j)),
    decreases j - k,
{
    if k < j {
        lemma_digits_value_prefix_grows(d, k, j - 1);
        assert(d.take(j).drop_last() =~= d.take(j - 1));
    }
}

/// A number reads only from bytes that are all digits `0`..`9`, but for one
/// `+` in front, and at least one digit; the empty text reads as nothing, a
/// leading `+` changes nothing, and a digit written after a number that reads
/// makes it ten times larger plus that digit, while any other byte makes the
/// whole text unreadable.
pub proof fn lemma_parsed_usize_reads_decimal(b: Seq<u8>, c: u8)
    ensures
        parsed_usize(b) is Some ==> exists|i: int| 0 <= i < b.len() && 48 <= #[trigger] b[i] <= 57,
        parsed_usize(b) is Some ==> forall|i: int|
            0 <= i < b.len() ==> (48 <= #[trigger] b[i] <= 57 || (i == 0 && b[i] == 43)),
        parsed_usize(Seq::<u8>::empty()) is None,
        !(b.len() > 0 && b[0] == 43) ==> parsed_usize(seq![43u8] + b) == parsed_usize(b),
        !(48 <= c <= 57) ==> parsed_usize(b.push(c)) is None,
        parsed_usize(b) is Some && 48 <= c <= 57 && parsed_usize(b)->0 * 10 + (c - 48)
            <= usize::MAX ==> parsed_usize(b.push(c)) == Some(
            (parsed_usize(b)->0 * 10 + (c - 48)) as usize,
        ),
{
    let d = unsigned_digits(b);
    if parsed_usize(b) is Some {
        assert(48 <= d[0] <= 57);
        if b.len() > 0 && b[0] == 43 {
            assert(d[0] == b[1]);
        } else {
            assert(d[0] == b[0]);
        }
        assert forall|i: int| 0 <= i < b.len() implies (48 <= #[trigger] b[i] <= 57 || (i == 0
            && b[i] == 43)) by {
            if b.len() > 0 && b[0] == 43 {
                if i > 0 {
                    assert(b[i] == d[i - 1]);
                }
            } else {
                assert(b[i] == d[i]);
            }
        }
    }
    if !(b.len() > 0 && b[0] == 43) {
        assert((seq![43u8] + b).drop_first() =~= b);
    }
    let e = unsigned_digits(b.push(c));
    if b.len() > 0 {
        assert(b.push(c)[0] == b[0]);
        if b[0] == 43 {
            assert(e =~= d.push(c));
        } else {
            assert(e =~= d.push(c));
        }
    } else if c != 43 {
        assert(e =~= d.push(c));
    } else {
        assert(e.len() == 0);
    }
    if !(48 <= c <= 57) && e.len() > 0 {
        assert(e[e.len() - 1] == c);
    }
    if parsed_usize(b) is Some && 48 <= c <= 57 {
        assert(e.drop_last() =~= d);
        assert forall|i: int| 0 <= i < e.len() implies is_digit_byte(#[trigger] e[i]) by {
            if i < d.len() {
                assert(e[i] == d[i]);
            }
        }
    }
}

/// Reads `b` as an unsigned decimal `usize`.
pub fn parse_usize(b: &[u8]) -> (r: Option<usize>)
    ensures
        r == parsed_usize(b@),
{
    let start: usize = if b.len() > 0 && b[0] == 43 {
        1
    } else {
        0
    };
    let ghost d = unsigned_digits(b@);
    assert(d =~= b@.skip(start as int));
    if start >= b.len() {
        return None;
    }
    let mut acc: usize = 0;
    let mut i: usize = start;
    while i < b.len()
        invariant
            d == unsigned_digits(b@),
            d =~= b@.skip(start as int),
            start <= i <= b@.len(),
            forall|j: int| 0 <= j < i - start ==> is_digit_byte(#[trigger] d[j]),
            acc as nat == digits_value(d.take(i - start)),
        decreases b@.len() - i,
    {
        let c = b[i];
        assert(d[i - start] == b@[i as int]);
        if c < 48 || c > 57 {
            assert(!is_digit_byte(d[i - start]));
            return None;
        }
        assert(d.take(i - start + 1).drop_last() =~= d.take(i - start));
        assert(digits_value(d.take(i - start + 1)) == acc * 10 + (c - 48));
        let digit = (c - 48) as usize;
        match acc.checked_mul(10) {
            Some(t) => match t.checked_add(digit) {
                Some(v) => {
                    acc = v;
                },
                None => {
                    proof {
                        if forall|j: int| 0 <= j < d.len() ==> is_digit_byte(#[trigger] d[j]) {
                            lemma_digits_value_prefix_grows(d, i - start + 1, d.len() as int);
                            assert(d.take(d.len() as int) =~= d);
                        }
                    }
                    return None;
                },
            },
            None => {
                proof {
                    if forall|j: int| 0 <= j < d.len() ==> is_digit_byte(#[trigger] d[j]) {
                        lemma_digits_value_prefix_grows(d, i - start + 1, d.len() as int);
                        assert(d.take(d.len() as int) =~= d);
                    }
                }
                return None;
            },
        }
        i = i + 1;
    }
    assert(d.take(d.len() as int) =~= d);
    Some(acc)
}

// ---------------------------------------------------------------------------
// Splitting at a separator
// ---------------------------------------------------------------------------

/// The first position, at or after `from`, where `sep` occurs in `s`.
pub open spec fn next_occurrence(s: Seq<char>, sep: Seq<char>, from: int) -> Option<int>
    decreases s.len() + 1 - from,
{
    if from < 0 || from + sep.len() > s.len() {
        None
    } else if occurs_at(s, sep, from) {
        Some(from)
    } else {
        next_occurrence(s, sep, from + 1)
    }
}

/// An occurrence found at or after `from` lies in `s`, and none comes before it.
pub proof fn lemma_next_occurrence(s: Seq<char>, sep: Seq<char>, from: int)
    requires
        0 <= from,
    ensures
        next_occurrence(s, sep, from) matches Some(i) ==> from <= i && i + sep.len() <= s.len()
            && occurs_at(s, sep, i) && forall|j: int| from <= j < i ==> !occurs_at(s, sep, j),
        next_occurrence(s, sep, from) is None ==> forall|j: int|
            from <= j ==> !occurs_at(s, sep, j),
    decreases s.len() + 1 - from,
{
    if from < 0 || from + sep.len() > s.len() {
    } else if occurs_at(s, sep, from) {
    } else {
        lemma_next_occurrence(s, sep, from + 1);
    }
}

/// Positions without an occurrence can be skipped.
proof fn lemma_next_occurrence_skip(s: Seq<char>, sep: Seq<char>, from: int, to: int)
    requires
        0 <= from <= to,
        forall|j: int| from <= j < to ==> !occurs_at(s, sep, j),
    ensures
        next_occurrence(s, sep, from) == next_occurrence(s, sep, to),
    decreases to - from,
{
    if from < to {
        lemma_next_occurrence_skip(s, sep, from + 1, to);
        if from + sep.len() > s.len() {
            lemma_next_occurrence(s, sep, to);
        }
    }
}

/// The pieces of `s` from position `start` on, cut at each occurrence of `sep`
/// taken from left to right without overlap; the text between two occurrences,
/// before the first and after the last is a piece, empty ones included.
pub open spec fn pieces_from(s: Seq<char>, sep: Seq<char>, start: int) -> Seq<Seq<char>>
    decreases s.len() - start,
{
    if sep.len() == 0 || start < 0 || start > s.len() {
        seq![]
    } else {
        match next_occurrence(s, sep, start) {
            None => seq![s.subrange(start, s.len() as int)],
            Some(i) => {
                proof {
                    lemma_next_occurrence(s, sep, start);
                }
                seq![s.subrange(start, i)] + pieces_from(s, sep, i + sep.len())
            },
        }
    }
}

/// The pieces of `s` cut at each occurrence of `sep`, as `str::split` gives them.
pub open spec fn split_pieces(s: Seq<char>, sep: Seq<char>) -> Seq<Seq<char>> {
    pieces_from(s, sep, 0)
}

/// The pieces of `s`, cut at `sep`, that begin with `prefix`.
pub open spec fn pieces_with_prefix(s: Seq<char>, sep: Seq<char>, prefix: Seq<char>) -> Seq<
    Seq<char>,
> {
    split_pieces(s, sep).filter(|p: Seq<char>| has_prefix(p, prefix))
}

/// Text with a single separator, the first occurrence of `sep` in it, splits
/// into the part before and the part after.
pub proof fn lemma_split_in_two(head: Seq<char>, sep: Seq<char>, rest: Seq<char>)
    requires
        sep.len() > 0,
        forall|j: int| 0 <= j < head.len() ==> !occurs_at(head + sep + rest, sep, j),
        forall|j: int| !occurs_at(rest, sep, j),
    ensures
        split_pieces(head + sep + rest, sep) == seq![head, rest],
{
    let text = head + sep + rest;
    let h = head.len() as int;
    let m = sep.len() as int;
    assert(text.subrange(h, h + m) =~= sep);
    assert(occurs_at(text, sep, h));
    lemma_next_occurrence_skip(text, sep, 0, h);
    assert(next_occurrence(text, sep, h) == Some(h));
    assert(text.subrange(0, h) =~= head);
    lemma_next_occurrence(text, sep, h + m);
    if let Some(i) = next_occurrence(text, sep, h + m) {
        assert(text.subrange(i, i + m) =~= rest.subrange(i - h - m, i - h - m + m));
        assert(occurs_at(rest, sep, i - h - m));
    }
    assert(next_occurrence(text, sep, h + m) is None);
    assert(text.subrange(h + m, text.len() as int) =~= rest);
    assert(pieces_from(text, sep, h + m) == seq![rest]);
    assert(pieces_from(text, sep, 0) == seq![head] + seq![rest]);
    assert(seq![head] + seq![rest] =~= seq![head, rest]);
}

/// Whether the part `start..end` of `s` begins with `prefix`.
fn range_has_prefix(s: &Vec<char>, start: usize, end: usize, prefix: &Vec<char>) -> (r: bool)
    requires
        start <= end <= s@.len(),
    ensures
        r == has_prefix(s@.subrange(start as int, end as int), prefix@),
{
    if prefix.len() > end - start {
        return false;
    }
    let r = occurs_at_exec(s, prefix, start);
    assert(s@.subrange(start as int, end as int).take(prefix@.len() as int) =~= s@.subrange(
        start as int,
        start + prefix@.len(),
    ));
    r
}

/// Where the only piece of `s`, cut at `sep`, that begins with `prefix` lies,
/// if exactly one piece does.
pub fn only_piece_with_prefix(s: &Vec<char>, sep: &Vec<char>, prefix: &Vec<char>) -> (r: Option<
    (usize, usize),
>)
    requires
        sep@.len() > 0,
    ensures
        match r {
            Some((a, b)) => a <= b <= s@.len() && pieces_with_prefix(s@, sep@, prefix@).len()
                == 1 && pieces_with_prefix(s@, sep@, prefix@)[0] == s@.subrange(a as int, b as int),
            None => pieces_with_prefix(s@, sep@, prefix@).len() != 1,
        },
{
    let n = s.len();
    let m = sep.len();
    let ghost pred = |p: Seq<char>| has_prefix(p, prefix@);
    let ghost total = pieces_with_prefix(s@, sep@, prefix@);
    let mut start: usize = 0;
    let mut i: usize = 0;
    let mut first: Option<(usize, usize)> = None;
    let ghost mut found: Seq<Seq<char>> = seq![];
    loop
        invariant_except_break
            total == found + pieces_from(s@, sep@, start as int).filter(pred),
        invariant
            n == s@.len(),
            m == sep@.len(),
            m > 0,
            pred == (|p: Seq<char>| has_prefix(p, prefix@)),
            total == pieces_with_prefix(s@, sep@, prefix@),
            start <= i <= n,
            forall|j: int| start <= j < i ==> !occurs_at(s@, sep@, j),
            found.len() <= 1,
            (found.len() == 0) == (first is None),
            first matches Some((a, b)) ==> a <= b <= n && found[0] == s@.subrange(a as int, b as int),
        ensures
            total == found,
            found.len() <= 1,
            (found.len() == 0) == (first is None),
            first matches Some((a, b)) ==> a <= b <= n && found[0] == s@.subrange(a as int, b as int),
        decreases n - i, n - start,
    {
        if m > n - i {
            proof {
                lemma_next_occurrence_skip(s@, sep@, start as int, i as int);
                lemma_next_occurrence(s@, sep@, i as int);
                let piece = s@.subrange(start as int, n as int);
                assert(pieces_from(s@, sep@, start as int) == seq![piece]);
                Seq::<Seq<char>>::empty().lemma_filter_prepend(piece, pred);
                assert(seq![piece] =~= seq![piece] + Seq::<Seq<char>>::empty());
                reveal(Seq::filter);
            }
            if range_has_prefix(s, start, n, prefix) {
                if first.is_some() {
                    return None;
                }
                first = Some((start, n));
                proof {
                    found = found.push(s@.subrange(start as int, n as int));
                }
            }
            proof {
                assert(total =~= found);
            }
            break;
        } else if occurs_at_exec(s, sep, i) {
            let ghost piece = s@.subrange(start as int, i as int);
            proof {
                lemma_next_occurrence_skip(s@, sep@, start as int, i as int);
                assert(pieces_from(s@, sep@, start as int) == seq![piece] + pieces_from(
                    s@,
                    sep@,
                    i + m,
                ));
                pieces_from(s@, sep@, i + m).lemma_filter_prepend(piece, pred);
            }
            if range_has_prefix(s, start, i, prefix) {
                if first.is_some() {
                    proof {
                        assert(total == found + seq![piece] + pieces_from(
                            s@,
                            sep@,
                            i + m,
                        ).filter(pred));
                    }
                    return None;
                }
                first = Some((start, i));
                proof {
                    found = found.push(piece);
                    assert(total =~= found + pieces_from(s@, sep@, i + m).filter(pred));
                }
            } else {
                proof {
                    assert(total =~= found + pieces_from(s@, sep@, i + m).filter(pred));
                }
            }
            start = i + m;
            i = i + m;
        } else {
            i = i + 1;
        }
    }
    first
}

} // verus!
