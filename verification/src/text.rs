//! Character-level helpers shared by the path, command-output and
//! configuration code.
//!
//! Strings are viewed as `Seq<char>`; every helper states its result over
//! that view.

use vstd::prelude::*;
use vstd::string::*;

verus! {

broadcast use vstd::string::group_string_axioms;

/// `str`'s own `==`: two string slices compare equal exactly when they hold
/// the same characters.
pub assume_specification[ <str as PartialEq>::eq ](a: &str, b: &str) -> (r: bool)
    ensures
        r == (a@ == b@),
;

/// `String::from_iter` over a slice of characters: the string that holds
/// exactly those characters, in order.
#[verifier::external_body]
pub(crate) fn string_of(chars: &[char]) -> (r: String)
    ensures
        r@ == chars@,
{
    chars.iter().collect::<String>()
}

/// The characters of `s`, in order.
pub fn chars_of(s: &str) -> (v: Vec<char>)
    ensures
        v@ == s@,
{
    let mut v: Vec<char> = Vec::new();
    let chars = s.chars();
    for c in it: chars
        invariant
            it.seq() == s@,
            v@ == it.seq().take(it.index()),
    {
        v.push(c);
    }
    v
}

/// True when `s` begins with `prefix`.
pub open spec fn has_prefix(s: Seq<char>, prefix: Seq<char>) -> bool {
    prefix.len() <= s.len() && s.take(prefix.len() as int) == prefix
}

/// True when `s` ends with `suffix`.
pub open spec fn has_suffix(s: Seq<char>, suffix: Seq<char>) -> bool {
    suffix.len() <= s.len() && s.skip(s.len() - suffix.len()) == suffix
}

/// True when `needle` occurs in `s` starting at index `at`.
pub open spec fn occurs_at(s: Seq<char>, needle: Seq<char>, at: int) -> bool {
    0 <= at && at + needle.len() <= s.len() && s.subrange(at, at + needle.len()) == needle
}

/// True when `needle` occurs somewhere in `s`.
pub open spec fn has_infix(s: Seq<char>, needle: Seq<char>) -> bool {
    exists|at: int| occurs_at(s, needle, at)
}

/// Compares `needle` with the characters of `s` that start at `at`.
pub fn matches_at(s: &[char], needle: &[char], at: usize) -> (r: bool)
    ensures
        r == occurs_at(s@, needle@, at as int),
{
    if needle.len() > s.len() || at > s.len() - needle.len() {
        return false;
    }
    let mut k: usize = 0;
    while k < needle.len()
        invariant
            k <= needle.len(),
            at + needle.len() <= s.len(),
            forall|j: int| 0 <= j < k ==> s@[at + j] == needle@[j],
        decreases needle.len() - k,
    {
        if s[at + k] != needle[k] {
            assert(s@.subrange(at as int, at + needle.len())[k as int] != needle@[k as int]);
            return false;
        }
        k += 1;
    }
    assert(s@.subrange(at as int, at + needle.len()) =~= needle@);
    true
}

/// Does `s` begin with `prefix`?
pub fn starts_with(s: &[char], prefix: &[char]) -> (r: bool)
    ensures
        r == has_prefix(s@, prefix@),
{
    let r = matches_at(s, prefix, 0);
    proof {
        if prefix.len() <= s.len() {
            assert(s@.take(prefix@.len() as int) =~= s@.subrange(0, prefix@.len() as int));
        }
    }
    r
}

/// Does `s` end with `suffix`?
pub fn ends_with(s: &[char], suffix: &[char]) -> (r: bool)
    ensures
        r == has_suffix(s@, suffix@),
{
    if suffix.len() > s.len() {
        return false;
    }
    let at = s.len() - suffix.len();
    let r = matches_at(s, suffix, at);
    proof {
        assert(s@.skip(s@.len() - suffix@.len()) =~= s@.subrange(at as int, at + suffix@.len()));
    }
    r
}

/// Does `needle` occur anywhere in `s`?
pub fn contains(s: &[char], needle: &[char]) -> (r: bool)
    ensures
        r == has_infix(s@, needle@),
{
    if needle.len() > s.len() {
        return false;
    }
    let last = s.len() - needle.len();
    let mut at: usize = 0;
    while at < last
        invariant
            last == s.len() - needle.len(),
            at <= last,
            forall|j: int| 0 <= j < at ==> !occurs_at(s@, needle@, j),
        decreases last - at,
    {
        if matches_at(s, needle, at) {
            return true;
        }
        at += 1;
    }
    matches_at(s, needle, last)
}

/// The pieces of `s` between occurrences of `sep`.  A string without `sep`
/// is one piece; each `sep` ends a piece and starts the next, so that the
/// pieces are one more than the separators.
pub open spec fn split_on(s: Seq<char>, sep: char) -> Seq<Seq<char>>
    decreases s.len(),
{
    if s.len() == 0 {
        seq![Seq::<char>::empty()]
    } else {
        let before = split_on(s.drop_last(), sep);
        if s.last() == sep {
            before.push(Seq::<char>::empty())
        } else {
            before.drop_last().push(before.last().push(s.last()))
        }
    }
}

/// `split_on` never returns an empty list of pieces.
pub proof fn lemma_split_on_nonempty(s: Seq<char>, sep: char)
    ensures
        split_on(s, sep).len() >= 1,
    decreases s.len(),
{
    if s.len() > 0 {
        lemma_split_on_nonempty(s.drop_last(), sep);
    }
}

/// The view of a list of character vectors.
pub open spec fn pieces_view(v: Seq<Vec<char>>) -> Seq<Seq<char>> {
    v.map_values(|p: Vec<char>| p@)
}

/// Splits `s` at every `sep`.
pub fn split(s: &[char], sep: char) -> (r: Vec<Vec<char>>)
    ensures
        pieces_view(r@) == split_on(s@, sep),
{
    let mut done: Vec<Vec<char>> = Vec::new();
    let mut cur: Vec<char> = Vec::new();
    let mut i: usize = 0;
    while i < s.len()
        invariant
            i <= s.len(),
            pieces_view(done@).push(cur@) == split_on(s@.take(i as int), sep),
        decreases s.len() - i,
    {
        let c = s[i];
        proof {
            let t = s@.take(i + 1);
            assert(t.drop_last() =~= s@.take(i as int));
            assert(t.last() == c);
            let before = split_on(t.drop_last(), sep);
            assert(before == pieces_view(done@).push(cur@));
            assert(before.last() == cur@);
            assert(before.drop_last() =~= pieces_view(done@));
        }
        if c == sep {
            let ghost old_done = done@;
            let ghost piece = cur@;
            done.push(cur);
            cur = Vec::new();
            proof {
                assert(pieces_view(done@) =~= pieces_view(old_done).push(piece));
            }
        } else {
            cur.push(c);
        }
        i += 1;
    }
    proof {
        assert(s@.take(i as int) =~= s@);
    }
    let ghost old_done = done@;
    let ghost last = cur@;
    done.push(cur);
    proof {
        assert(pieces_view(done@) =~= pieces_view(old_done).push(last));
    }
    done
}

/// No piece of `split_on` holds the separator.
pub proof fn lemma_split_on_pieces_clean(s: Seq<char>, sep: char)
    ensures
        forall|k: int|
            0 <= k < split_on(s, sep).len() ==> !(#[trigger] split_on(s, sep)[k]).contains(sep),
    decreases s.len(),
{
    if s.len() > 0 {
        lemma_split_on_pieces_clean(s.drop_last(), sep);
        lemma_split_on_nonempty(s.drop_last(), sep);
        let before = split_on(s.drop_last(), sep);
        let after = split_on(s, sep);
        assert forall|k: int| 0 <= k < after.len() implies !(#[trigger] after[k]).contains(
            sep,
        ) by {
            if s.last() == sep {
                if k < before.len() {
                    assert(after[k] == before[k]);
                } else {
                    assert(after[k] =~= Seq::<char>::empty());
                }
            } else {
                if k < before.len() - 1 {
                    assert(after[k] == before[k]);
                } else {
                    let grown = before.last().push(s.last());
                    assert(after[k] == grown);
                    assert(!before[before.len() - 1].contains(sep));
                    if grown.contains(sep) {
                        let w = choose|w: int| 0 <= w < grown.len() && grown[w] == sep;
                        if w < before.last().len() {
                            assert(before.last()[w] == sep);
                        }
                    }
                }
            }
        }
    } else {
        assert forall|k: int| 0 <= k < split_on(s, sep).len() implies !(#[trigger] split_on(
            s,
            sep,
        )[k]).contains(sep) by {
            assert(split_on(s, sep)[k] =~= Seq::<char>::empty());
        }
    }
}

/// A string without the separator is one piece.
pub proof fn lemma_split_on_clean(s: Seq<char>, sep: char)
    requires
        !s.contains(sep),
    ensures
        split_on(s, sep) == seq![s],
    decreases s.len(),
{
    if s.len() > 0 {
        assert forall|k: int| 0 <= k < s.drop_last().len() implies s.drop_last()[k] != sep by {
            assert(s[k] == s.drop_last()[k]);
            if s[k] == sep {
                assert(s.contains(sep));
            }
        }
        assert(!s.drop_last().contains(sep));
        lemma_split_on_clean(s.drop_last(), sep);
        assert(s.last() != sep) by {
            if s.last() == sep {
                assert(s[s.len() - 1] == sep);
                assert(s.contains(sep));
            }
        }
        let before = split_on(s.drop_last(), sep);
        assert(before.drop_last().push(before.last().push(s.last())) =~= seq![
            s.drop_last().push(s.last()),
        ]);
        assert(s.drop_last().push(s.last()) =~= s);
    } else {
        assert(s =~= Seq::<char>::empty());
    }
}

/// The pieces of two strings with a separator between them are the pieces
/// of the first followed by the pieces of the second.
pub proof fn lemma_split_on_join(a: Seq<char>, b: Seq<char>, sep: char)
    ensures
        split_on(a + seq![sep] + b, sep) == split_on(a, sep) + split_on(b, sep),
    decreases b.len(),
{
    let whole = a + seq![sep] + b;
    if b.len() == 0 {
        assert(whole.drop_last() =~= a);
        assert(whole.last() == sep);
        assert(split_on(a, sep).push(Seq::<char>::empty()) =~= split_on(a, sep) + split_on(
            b,
            sep,
        ));
    } else {
        let shorter = a + seq![sep] + b.drop_last();
        assert(whole.drop_last() =~= shorter);
        assert(whole.last() == b.last());
        lemma_split_on_join(a, b.drop_last(), sep);
        lemma_split_on_nonempty(b.drop_last(), sep);
        lemma_split_on_nonempty(a, sep);
        let pa = split_on(a, sep);
        let pb = split_on(b.drop_last(), sep);
        let before = pa + pb;
        assert(before.last() == pb.last());
        assert(before.drop_last() =~= pa + pb.drop_last());
        if b.last() == sep {
            assert(before.push(Seq::<char>::empty()) =~= pa + pb.push(Seq::<char>::empty()));
        } else {
            assert(before.drop_last().push(before.last().push(b.last())) =~= pa
                + pb.drop_last().push(pb.last().push(b.last())));
        }
    }
}

/// The character of a decimal digit, `0 <= d < 10`.
pub open spec fn digit_char(d: int) -> char {
    seq!['0', '1', '2', '3', '4', '5', '6', '7', '8', '9'][d]
}

/// The decimal text of a number, without leading zeros.
pub open spec fn decimal_text(n: nat) -> Seq<char>
    decreases n,
{
    if n < 10 {
        seq![digit_char(n as int)]
    } else {
        decimal_text(n / 10).push(digit_char((n % 10) as int))
    }
}

/// The character of a decimal digit.
fn digit(d: u64) -> (r: char)
    requires
        d < 10,
    ensures
        r == digit_char(d as int),
{
    if d == 0 {
        '0'
    } else if d == 1 {
        '1'
    } else if d == 2 {
        '2'
    } else if d == 3 {
        '3'
    } else if d == 4 {
        '4'
    } else if d == 5 {
        '5'
    } else if d == 6 {
        '6'
    } else if d == 7 {
        '7'
    } else if d == 8 {
        '8'
    } else {
        '9'
    }
}

/// The decimal text of a number.
pub fn decimal(n: u64) -> (r: String)
    ensures
        r@ == decimal_text(n as nat),
{
    let mut rev: Vec<char> = Vec::new();
    rev.push(digit(n % 10));
    let mut m: u64 = n / 10;
    assert(rev@.reverse() =~= seq![digit_char((n % 10) as int)]);
    assert(Seq::<char>::empty() + rev@.reverse() =~= rev@.reverse());
    while m > 0
        invariant
            rev@.len() > 0,
            decimal_text(n as nat) == (if m > 0 {
                decimal_text(m as nat)
            } else {
                Seq::<char>::empty()
            }) + rev@.reverse(),
        decreases m,
    {
        let ghost before = rev@;
        let d = digit(m % 10);
        rev.push(d);
        proof {
            assert(rev@.reverse() =~= seq![d] + before.reverse());
            if m < 10 {
                assert(decimal_text(m as nat) =~= seq![d]);
                assert(Seq::<char>::empty() + rev@.reverse() =~= seq![d] + before.reverse());
            } else {
                assert(decimal_text(m as nat) == decimal_text((m / 10) as nat).push(d));
                assert(decimal_text((m / 10) as nat).push(d) + before.reverse() =~= decimal_text(
                    (m / 10) as nat,
                ) + rev@.reverse());
            }
        }
        m = m / 10;
    }
    let mut out: Vec<char> = Vec::new();
    let mut k: usize = rev.len();
    while k > 0
        invariant
            k <= rev@.len(),
            out@ == rev@.reverse().take(rev@.len() - k),
        decreases k,
    {
        k -= 1;
        out.push(rev[k]);
        assert(rev@.reverse().take(rev@.len() - k) =~= rev@.reverse().take(rev@.len() - k - 1).push(
            rev@[k as int],
        ));
    }
    assert(rev@.reverse().take(rev@.len() as int) =~= rev@.reverse());
    assert(Seq::<char>::empty() + rev@.reverse() =~= rev@.reverse());
    string_of(out.as_slice())
}

/// True for the ten decimal digits.
pub open spec fn is_digit(c: char) -> bool {
    '0' <= c && c <= '9'
}

/// The value of a decimal digit.
pub open spec fn digit_value(c: char) -> nat {
    (c as int - '0' as int) as nat
}

/// The number that a string of decimal digits writes.
pub open spec fn digits_value(s: Seq<char>) -> nat
    decreases s.len(),
{
    if s.len() == 0 {
        0
    } else {
        digits_value(s.drop_last()) * 10 + digit_value(s.last())
    }
}

/// True when every character is a decimal digit.
pub open spec fn all_digits(s: Seq<char>) -> bool {
    forall|i: int| 0 <= i < s.len() ==> is_digit(#[trigger] s[i])
}

/// The digits of a number text: what follows an optional plus sign.
pub open spec fn number_body(s: Seq<char>) -> Seq<char> {
    if s.len() > 0 && s[0] == '+' {
        s.skip(1)
    } else {
        s
    }
}

/// The number that a text writes: decimal digits, at least one, after an
/// optional plus sign, with a value that a `u64` can hold.
pub open spec fn parsed_u64(s: Seq<char>) -> Option<u64> {
    let body = number_body(s);
    if body.len() > 0 && all_digits(body) && digits_value(body) <= u64::MAX {
        Some(digits_value(body) as u64)
    } else {
        None
    }
}

/// More digits do not write a smaller number.
pub proof fn lemma_digits_value_grows(s: Seq<char>, k: int)
    requires
        0 <= k <= s.len(),
    ensures
        digits_value(s.take(k)) <= digits_value(s),
    decreases s.len() - k,
{
    if k < s.len() {
        lemma_digits_value_grows(s, k + 1);
        assert(s.take(k + 1).drop_last() =~= s.take(k));
    } else {
        assert(s.take(k) =~= s);
    }
}

/// Reads a number as `parsed_u64` describes it.
pub fn parse_u64(s: &[char]) -> (r: Option<u64>)
    ensures
        r == parsed_u64(s@),
{
    let start: usize = if s.len() > 0 && s[0] == '+' {
        1
    } else {
        0
    };
    let ghost body = number_body(s@);
    assert(body =~= s@.skip(start as int));
    if start >= s.len() {
        return None;
    }
    let mut value: u64 = 0;
    let mut i: usize = start;
    assert(body.take(0) =~= Seq::<char>::empty());
    while i < s.len()
        invariant
            start <= i <= s@.len(),
            body == number_body(s@),
            body == s@.skip(start as int),
            all_digits(body.take(i - start)),
            value == digits_value(body.take(i - start)),
        decreases s@.len() - i,
    {
        let c = s[i];
        proof {
            assert(body.take(i + 1 - start).drop_last() =~= body.take(i - start));
            assert(body.take(i + 1 - start).last() == c);
            assert(body[i - start] == c);
        }
        if !(c >= '0' && c <= '9') {
            assert(!is_digit(body[i - start]));
            return None;
        }
        let d: u64 = (c as u32 - '0' as u32) as u64;
        proof {
            lemma_digits_value_grows(body, i + 1 - start);
            assert(d == digit_value(c));
            assert(digits_value(body.take(i + 1 - start)) == value * 10 + d);
        }
        if value > u64::MAX / 10 {
            return None;
        }
        let tens = value * 10;
        if d > u64::MAX - tens {
            return None;
        }
        value = tens + d;
        proof {
            assert forall|j: int| 0 <= j < body.take(i + 1 - start).len() implies is_digit(
                #[trigger] body.take(i + 1 - start)[j],
            ) by {
                if j < i - start {
                    assert(body.take(i - start)[j] == body.take(i + 1 - start)[j]);
                }
            }
        }
        i += 1;
    }
    assert(body.take(i - start) =~= body);
    Some(value)
}

/// True for the characters that separate the fields of a line of text: the
/// code points with the Unicode property `White_Space`.
pub open spec fn is_space(c: char) -> bool {
    let n = c as u32;
    (0x9 <= n && n <= 0xd) || n == 0x20 || n == 0x85 || n == 0xa0 || n == 0x1680 || (0x2000 <= n
        && n <= 0x200a) || n == 0x2028 || n == 0x2029 || n == 0x202f || n == 0x205f || n == 0x3000
}

/// True for a character that separates fields.
pub fn space(c: char) -> (r: bool)
    ensures
        r == is_space(c),
{
    let n: u32 = c as u32;
    (0x9 <= n && n <= 0xd) || n == 0x20 || n == 0x85 || n == 0xa0 || n == 0x1680 || (0x2000 <= n
        && n <= 0x200a) || n == 0x2028 || n == 0x2029 || n == 0x202f || n == 0x205f || n == 0x3000
}

/// The pieces of `s` between separating characters, the empty ones too.
pub open spec fn split_at_spaces(s: Seq<char>) -> Seq<Seq<char>>
    decreases s.len(),
{
    if s.len() == 0 {
        seq![Seq::<char>::empty()]
    } else {
        let before = split_at_spaces(s.drop_last());
        if is_space(s.last()) {
            before.push(Seq::<char>::empty())
        } else {
            before.drop_last().push(before.last().push(s.last()))
        }
    }
}

/// The test for a piece that holds something, as a value.
pub open spec fn holds_text() -> spec_fn(Seq<char>) -> bool {
    |p: Seq<char>| p.len() > 0
}

/// The fields of a line: what stands between runs of separating characters.
pub open spec fn fields_of(s: Seq<char>) -> Seq<Seq<char>> {
    split_at_spaces(s).filter(holds_text())
}

/// The fields of a line.
pub fn fields(s: &[char]) -> (r: Vec<Vec<char>>)
    ensures
        pieces_view(r@) == fields_of(s@),
{
    let mut done: Vec<Vec<char>> = Vec::new();
    let mut cur: Vec<char> = Vec::new();
    let ghost mut all: Seq<Seq<char>> = Seq::empty();
    let mut i: usize = 0;
    proof {
        reveal(Seq::filter);
        assert(all.filter(holds_text()) =~= pieces_view(done@));
    }
    while i < s.len()
        invariant
            i <= s.len(),
            all.push(cur@) == split_at_spaces(s@.take(i as int)),
            pieces_view(done@) == all.filter(holds_text()),
        decreases s.len() - i,
    {
        let c = s[i];
        proof {
            reveal(Seq::filter);
            let t = s@.take(i + 1);
            assert(t.drop_last() =~= s@.take(i as int));
            assert(t.last() == c);
            let before = split_at_spaces(t.drop_last());
            assert(before == all.push(cur@));
            assert(before.last() == cur@);
            assert(before.drop_last() =~= all);
        }
        if space(c) {
            let ghost old_done = done@;
            let ghost piece = cur@;
            if cur.len() > 0 {
                done.push(cur);
                proof {
                    assert(pieces_view(done@) =~= pieces_view(old_done).push(piece));
                }
            }
            proof {
                assert(all.push(piece).drop_last() =~= all);
                all = all.push(piece);
            }
            cur = Vec::new();
        } else {
            cur.push(c);
        }
        i += 1;
    }
    proof {
        reveal(Seq::filter);
        assert(s@.take(i as int) =~= s@);
        assert(all.push(cur@).drop_last() =~= all);
    }
    let ghost old_done = done@;
    let ghost last = cur@;
    if cur.len() > 0 {
        done.push(cur);
        proof {
            assert(pieces_view(done@) =~= pieces_view(old_done).push(last));
        }
    }
    done
}

/// A line without the carriage return that may end it.
pub open spec fn without_cr(line: Seq<char>) -> Seq<char> {
    if line.len() > 0 && line.last() == '\r' {
        line.drop_last()
    } else {
        line
    }
}

/// The lines of a text.  A line ends with a line feed, and is taken without
/// it and without the carriage return that may stand before it.  What
/// follows the last line feed is a line only if it holds something, and is
/// taken as it stands: a carriage return at its end stays.
pub open spec fn lines_of(s: Seq<char>) -> Seq<Seq<char>> {
    let pieces = split_on(s, '\n');
    let ended = pieces.drop_last().map_values(|l: Seq<char>| without_cr(l));
    if pieces.last().len() == 0 {
        ended
    } else {
        ended.push(pieces.last())
    }
}

/// The lines of a text.
pub fn lines(s: &[char]) -> (r: Vec<Vec<char>>)
    ensures
        pieces_view(r@) == lines_of(s@),
{
    let mut pieces = split(s, '\n');
    proof {
        lemma_split_on_nonempty(s@, '\n');
    }
    let ghost all = pieces_view(pieces@);
    let rest = pieces.pop().unwrap();
    assert(pieces_view(pieces@) =~= all.drop_last());
    assert(rest@ == all.last());
    let ghost whole = pieces_view(pieces@);
    let mut out: Vec<Vec<char>> = Vec::new();
    let mut i: usize = 0;
    while i < pieces.len()
        invariant
            i <= pieces@.len(),
            whole == pieces_view(pieces@),
            pieces_view(out@) == whole.take(i as int).map_values(|l: Seq<char>| without_cr(l)),
        decreases pieces@.len() - i,
    {
        let line = &pieces[i];
        let n = line.len();
        let keep = if n > 0 && line[n - 1] == '\r' {
            n - 1
        } else {
            n
        };
        let cut = vstd::slice::slice_subrange(line.as_slice(), 0, keep);
        let owned = vstd::slice::slice_to_vec(cut);
        proof {
            assert(owned@ =~= without_cr(line@));
        }
        let ghost prev = out@;
        out.push(owned);
        proof {
            assert(pieces_view(out@) =~= pieces_view(prev).push(without_cr(line@)));
            assert(whole.take(i + 1).map_values(|l: Seq<char>| without_cr(l)) =~= whole.take(
                i as int,
            ).map_values(|l: Seq<char>| without_cr(l)).push(without_cr(whole[i as int])));
        }
        i += 1;
    }
    assert(whole.take(i as int) =~= whole);
    if rest.len() > 0 {
        let ghost prev = out@;
        out.push(rest);
        assert(pieces_view(out@) =~= pieces_view(prev).push(rest@));
    }
    out
}

/// `s` without the copies of `prefix` that it begins with.
pub open spec fn strip_prefixes(s: Seq<char>, prefix: Seq<char>) -> Seq<char>
    decreases s.len(),
{
    if prefix.len() > 0 && has_prefix(s, prefix) {
        strip_prefixes(s.skip(prefix.len() as int), prefix)
    } else {
        s
    }
}

/// Drops every copy of `prefix` that `s` begins with.
pub fn trim_start(s: &[char], prefix: &[char]) -> (r: Vec<char>)
    ensures
        r@ == strip_prefixes(s@, prefix@),
{
    let mut at: usize = 0;
    if prefix.len() > 0 {
        assert(s@.skip(0) =~= s@);
        loop
            invariant_except_break
                at <= s@.len(),
                prefix@.len() > 0,
                strip_prefixes(s@, prefix@) == strip_prefixes(s@.skip(at as int), prefix@),
            ensures
                at <= s@.len(),
                strip_prefixes(s@, prefix@) == s@.skip(at as int),
            decreases s@.len() - at,
        {
            let rest = vstd::slice::slice_subrange(s, at, s.len());
            assert(rest@ =~= s@.skip(at as int));
            if starts_with(rest, prefix) {
                assert(s@.skip(at as int).skip(prefix@.len() as int) =~= s@.skip(
                    at + prefix@.len(),
                ));
                at += prefix.len();
            } else {
                break ;
            }
        }
    } else {
        assert(s@.skip(0) =~= s@);
    }
    let rest = vstd::slice::slice_subrange(s, at, s.len());
    assert(rest@ =~= s@.skip(at as int));
    vstd::slice::slice_to_vec(rest)
}

/// `s` without the separating characters that it begins with.
pub open spec fn trim_front(s: Seq<char>) -> Seq<char>
    decreases s.len(),
{
    if s.len() > 0 && is_space(s[0]) {
        trim_front(s.drop_first())
    } else {
        s
    }
}

/// `s` without the separating characters that it ends with.
pub open spec fn trim_back(s: Seq<char>) -> Seq<char>
    decreases s.len(),
{
    if s.len() > 0 && is_space(s.last()) {
        trim_back(s.drop_last())
    } else {
        s
    }
}

/// `s` without the separating characters at either end.
pub open spec fn trimmed(s: Seq<char>) -> Seq<char> {
    trim_back(trim_front(s))
}

/// Drops the separating characters at either end.
pub fn trim(s: &[char]) -> (r: Vec<char>)
    ensures
        r@ == trimmed(s@),
{
    let mut from: usize = 0;
    assert(s@.skip(0) =~= s@);
    while from < s.len() && space(s[from])
        invariant
            from <= s@.len(),
            trim_front(s@) == trim_front(s@.skip(from as int)),
        decreases s@.len() - from,
    {
        assert(s@.skip(from as int).drop_first() =~= s@.skip(from + 1));
        from += 1;
    }
    let ghost front = s@.skip(from as int);
    assert(trim_front(s@) == front);
    let mut to: usize = s.len();
    assert(s@.subrange(from as int, to as int) =~= front);
    while to > from && space(s[to - 1])
        invariant
            from <= to <= s@.len(),
            trim_back(front) == trim_back(s@.subrange(from as int, to as int)),
        decreases to,
    {
        assert(s@.subrange(from as int, to as int).drop_last() =~= s@.subrange(
            from as int,
            to - 1,
        ));
        to -= 1;
    }
    let cut = vstd::slice::slice_subrange(s, from, to);
    vstd::slice::slice_to_vec(cut)
}

/// The text of an optional string.
pub open spec fn opt_text(o: Option<String>) -> Option<Seq<char>> {
    match o {
        Some(s) => Some(s@),
        None => None,
    }
}

/// The text of an optional string slice.
pub open spec fn opt_str(o: Option<&str>) -> Option<Seq<char>> {
    match o {
        Some(s) => Some(s@),
        None => None,
    }
}

/// The texts of a list of strings.
pub open spec fn texts(v: Seq<String>) -> Seq<Seq<char>> {
    v.map_values(|s: String| s@)
}

/// A copy of an optional string.
pub fn copy_opt(o: &Option<String>) -> (r: Option<String>)
    ensures
        opt_text(r) == opt_text(*o),
{
    match o {
        Some(s) => Some(s.clone()),
        None => None,
    }
}

/// An owned copy of an optional string slice.
pub fn own_opt(o: Option<&str>) -> (r: Option<String>)
    ensures
        opt_text(r) == opt_str(o),
{
    match o {
        Some(s) => Some(String::from_str(s)),
        None => None,
    }
}

} // verus!
