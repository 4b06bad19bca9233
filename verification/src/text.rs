//! Text: ASCII case folding, trimming, substring search, decimal numbers and
//! joining, over the characters of a string.

use vstd::prelude::*;
use vstd::string::*;

verus! {

/// `c` with the letters `A` to `Z` made lower case and every other character
/// left alone.
pub open spec fn ascii_lower_char(c: char) -> char {
    if 'A' <= c <= 'Z' {
        ((c as u32) + 32) as char
    } else {
        c
    }
}

/// [`ascii_lower_char`] on every character.
pub open spec fn ascii_lower(s: Seq<char>) -> Seq<char> {
    Seq::new(s.len(), |i: int| ascii_lower_char(s[i]))
}

/// The characters with the Unicode property White_Space.
pub open spec fn is_white_space(c: char) -> bool {
    ||| '\u{9}' <= c <= '\u{d}'
    ||| c == '\u{20}'
    ||| c == '\u{85}'
    ||| c == '\u{a0}'
    ||| c == '\u{1680}'
    ||| '\u{2000}' <= c <= '\u{200a}'
    ||| c == '\u{2028}'
    ||| c == '\u{2029}'
    ||| c == '\u{202f}'
    ||| c == '\u{205f}'
    ||| c == '\u{3000}'
}

/// `s` without its leading white space.
pub open spec fn trim_start(s: Seq<char>) -> Seq<char>
    decreases s.len(),
{
    if s.len() > 0 && is_white_space(s[0]) {
        trim_start(s.drop_first())
    } else {
        s
    }
}

/// `s` without its trailing white space.
pub open spec fn trim_end(s: Seq<char>) -> Seq<char>
    decreases s.len(),
{
    if s.len() > 0 && is_white_space(s.last()) {
        trim_end(s.drop_last())
    } else {
        s
    }
}

/// `s` without leading and trailing white space.
pub open spec fn trimmed(s: Seq<char>) -> Seq<char> {
    trim_end(trim_start(s))
}

/// `needle` stands in `haystack` at offset `at`.
pub open spec fn occurs_at(haystack: Seq<char>, needle: Seq<char>, at: int) -> bool {
    &&& 0 <= at
    &&& at + needle.len() <= haystack.len()
    &&& haystack.subrange(at, at + needle.len()) == needle
}

/// `needle` stands somewhere in `haystack`.
pub open spec fn has_substring(haystack: Seq<char>, needle: Seq<char>) -> bool {
    exists|at: int| occurs_at(haystack, needle, at)
}

/// The decimal digit for `d`, which is below ten.
pub open spec fn digit(d: nat) -> char {
    (('0' as u32) + d) as char
}

/// `n` written in decimal, without leading zeros.
pub open spec fn decimal(n: nat) -> Seq<char>
    decreases n,
{
    if n < 10 {
        seq![digit(n)]
    } else {
        decimal(n / 10).push(digit(n % 10))
    }
}

/// The pieces one after the other, with `separator` between neighbours.
pub open spec fn joined(pieces: Seq<Seq<char>>, separator: Seq<char>) -> Seq<char>
    decreases pieces.len(),
{
    if pieces.len() == 0 {
        Seq::empty()
    } else if pieces.len() == 1 {
        pieces[0]
    } else {
        joined(pieces.drop_last(), separator) + separator + pieces.last()
    }
}

/// The characters of each string.
pub open spec fn views(strings: Seq<String>) -> Seq<Seq<char>> {
    Seq::new(strings.len(), |i: int| strings[i]@)
}

fn lower_char(c: char) -> (r: char)
    ensures
        r == ascii_lower_char(c),
{
    if 'A' <= c && c <= 'Z' {
        (c as u8 + 32) as char
    } else {
        c
    }
}

/// The characters of `s`, with the ASCII capitals made lower case.
pub fn lower_chars(s: &str) -> (r: Vec<char>)
    ensures
        r@ == ascii_lower(s@),
{
    let mut r: Vec<char> = Vec::new();
    for c in iter: s.chars()
        invariant
            iter.seq() == s@,
            r@ == ascii_lower(s@).take(iter.index()),
    {
        r.push(lower_char(c));
        assert(r@ =~= ascii_lower(s@).take(iter.index() + 1));
    }
    assert(ascii_lower(s@).take(s@.len() as int) =~= ascii_lower(s@));
    r
}

/// Whether `c` is white space.
pub fn is_space(c: char) -> (r: bool)
    ensures
        r == is_white_space(c),
{
    ('\u{9}' <= c && c <= '\u{d}') || c == '\u{20}' || c == '\u{85}' || c == '\u{a0}' || c
        == '\u{1680}' || ('\u{2000}' <= c && c <= '\u{200a}') || c == '\u{2028}' || c
        == '\u{2029}' || c == '\u{202f}' || c == '\u{205f}' || c == '\u{3000}'
}

/// `s` without leading and trailing white space.
pub fn trim(s: &str) -> (r: &str)
    ensures
        r@ == trimmed(s@),
{
    let n: usize = s.unicode_len();
    let mut start: usize = 0;
    assert(s@.skip(0) =~= s@);
    while start < n && is_space(s.get_char(start))
        invariant
            n == s@.len(),
            start <= n,
            trim_start(s@.skip(start as int)) == trim_start(s@),
        decreases n - start,
    {
        assert(s@.skip(start as int).drop_first() =~= s@.skip(start + 1));
        start = start + 1;
    }
    let ghost tail = s@.skip(start as int);
    assert(trim_start(s@) == tail);
    let mut end: usize = n;
    assert(s@.subrange(start as int, n as int) =~= tail);
    while start < end && is_space(s.get_char(end - 1))
        invariant
            n == s@.len(),
            start <= end <= n,
            trim_end(s@.subrange(start as int, end as int)) == trim_end(tail),
        decreases end,
    {
        assert(s@.subrange(start as int, end as int).drop_last() =~= s@.subrange(
            start as int,
            end - 1,
        ));
        end = end - 1;
    }
    s.substring_char(start, end)
}

/// Whether `needle` stands in `haystack` at offset `at`.
fn stands_at(haystack: &Vec<char>, needle: &Vec<char>, at: usize) -> (r: bool)
    requires
        at + needle@.len() <= haystack@.len(),
    ensures
        r == occurs_at(haystack@, needle@, at as int),
{
    let ghost window = haystack@.subrange(at as int, at + needle@.len());
    let mut i: usize = 0;
    while i < needle.len()
        invariant
            at + needle@.len() <= haystack.len(),
            window == haystack@.subrange(at as int, at + needle@.len()),
            i <= needle@.len(),
            forall|j: int| 0 <= j < i ==> window[j] == needle@[j],
        decreases needle@.len() - i,
    {
        if haystack[at + i] != needle[i] {
            assert(window[i as int] != needle@[i as int]);
            return false;
        }
        i = i + 1;
    }
    assert(window =~= needle@);
    true
}

/// Whether `needle` stands somewhere in `haystack`.
pub fn contains_chars(haystack: &Vec<char>, needle: &Vec<char>) -> (r: bool)
    ensures
        r == has_substring(haystack@, needle@),
{
    if needle.len() > haystack.len() {
        return false;
    }
    let last: usize = haystack.len() - needle.len();
    let mut at: usize = 0;
    while at < last
        invariant
            at <= last,
            last + needle@.len() == haystack@.len(),
            forall|j: int| 0 <= j < at ==> !occurs_at(haystack@, needle@, j),
        decreases last - at,
    {
        if stands_at(haystack, needle, at) {
            return true;
        }
        at = at + 1;
    }
    stands_at(haystack, needle, last)
}

/// Whether the two hold the same characters.
pub fn same_chars(a: &Vec<char>, b: &Vec<char>) -> (r: bool)
    ensures
        r == (a@ == b@),
{
    if a.len() != b.len() {
        return false;
    }
    let mut i: usize = 0;
    while i < a.len()
        invariant
            a@.len() == b@.len(),
            i <= a@.len(),
            forall|j: int| 0 <= j < i ==> a@[j] == b@[j],
        decreases a@.len() - i,
    {
        if a[i] != b[i] {
            return false;
        }
        i = i + 1;
    }
    assert(a@ =~= b@);
    true
}

fn digit_text(d: u64) -> (r: &'static str)
    requires
        d < 10,
    ensures
        r@ == seq![digit(d as nat)],
{
    proof {
        reveal_strlit("0");
        reveal_strlit("1");
        reveal_strlit("2");
        reveal_strlit("3");
        reveal_strlit("4");
        reveal_strlit("5");
        reveal_strlit("6");
        reveal_strlit("7");
        reveal_strlit("8");
        reveal_strlit("9");
    }
    match d {
        0 => "0",
        1 => "1",
        2 => "2",
        3 => "3",
        4 => "4",
        5 => "5",
        6 => "6",
        7 => "7",
        8 => "8",
        _ => "9",
    }
}

/// Appends `n` in decimal to `out`.
pub fn push_decimal(out: &mut String, n: u64)
    ensures
        final(out)@ == old(out)@ + decimal(n as nat),
    decreases n,
{
    if n >= 10 {
        push_decimal(out, n / 10);
    }
    out.append(digit_text(n % 10));
    assert(out@ =~= old(out)@ + decimal(n as nat));
}

/// The pieces joined by `separator`.
pub fn join(pieces: &Vec<String>, separator: &str) -> (r: String)
    ensures
        r@ == joined(views(pieces@), separator@),
{
    let mut r: String = String::new();
    let mut i: usize = 0;
    assert(views(pieces@).take(0) =~= Seq::<Seq<char>>::empty());
    while i < pieces.len()
        invariant
            i <= pieces@.len(),
            r@ == joined(views(pieces@).take(i as int), separator@),
        decreases pieces@.len() - i,
    {
        if i > 0 {
            r.append(separator);
        }
        r.append(pieces[i].as_str());
        assert(views(pieces@).take(i + 1).drop_last() =~= views(pieces@).take(i as int));
        assert(r@ =~= joined(views(pieces@).take(i + 1), separator@));
        i = i + 1;
    }
    assert(views(pieces@).take(pieces@.len() as int) =~= views(pieces@));
    r
}

/// Folding the case and trimming can be done in either order.
pub proof fn lemma_lower_and_trim_commute(s: Seq<char>)
    ensures
        ascii_lower(trimmed(s)) == trimmed(ascii_lower(s)),
{
    lemma_lower_and_trim_start_commute(s);
    lemma_lower_and_trim_end_commute(trim_start(s));
}

proof fn lemma_lower_and_trim_start_commute(s: Seq<char>)
    ensures
        ascii_lower(trim_start(s)) == trim_start(ascii_lower(s)),
    decreases s.len(),
{
    if s.len() > 0 {
        lemma_lower_and_trim_start_commute(s.drop_first());
        assert(ascii_lower(s.drop_first()) =~= ascii_lower(s).drop_first());
    }
}

proof fn lemma_lower_and_trim_end_commute(s: Seq<char>)
    ensures
        ascii_lower(trim_end(s)) == trim_end(ascii_lower(s)),
    decreases s.len(),
{
    if s.len() > 0 {
        lemma_lower_and_trim_end_commute(s.drop_last());
        assert(ascii_lower(s.drop_last()) =~= ascii_lower(s).drop_last());
    }
}

/// Trimming twice is trimming once.
pub proof fn lemma_trimmed_stays(s: Seq<char>)
    ensures
        trimmed(trimmed(s)) == trimmed(s),
{
    let t = trim_start(s);
    lemma_trim_start_ends(s);
    lemma_trim_end_ends(t);
}

/// What is left after trimming stands in the whole.
pub proof fn lemma_trimmed_occurs(s: Seq<char>)
    ensures
        has_substring(s, trimmed(s)),
{
    let t = trim_start(s);
    lemma_trim_start_is_tail(s);
    lemma_trim_end_ends(t);
    let at = s.len() - t.len();
    assert(s.subrange(at, at + trimmed(s).len()) =~= trimmed(s));
    assert(occurs_at(s, trimmed(s), at));
}

proof fn lemma_trim_start_is_tail(s: Seq<char>)
    ensures
        trim_start(s).len() <= s.len(),
        trim_start(s) == s.skip(s.len() - trim_start(s).len()),
    decreases s.len(),
{
    if s.len() > 0 && is_white_space(s[0]) {
        lemma_trim_start_is_tail(s.drop_first());
        assert(s.drop_first().skip(s.len() - 1 - trim_start(s).len()) =~= s.skip(
            s.len() - trim_start(s).len(),
        ));
    } else {
        assert(s.skip(0) =~= s);
    }
}

proof fn lemma_trim_start_ends(s: Seq<char>)
    ensures
        trim_start(s).len() == 0 || !is_white_space(trim_start(s)[0]),
    decreases s.len(),
{
    if s.len() > 0 {
        lemma_trim_start_ends(s.drop_first());
    }
}

proof fn lemma_trim_end_ends(s: Seq<char>)
    ensures
        trim_end(s).len() <= s.len(),
        trim_end(s) == s.take(trim_end(s).len() as int),
        trim_end(s).len() == 0 || !is_white_space(trim_end(s).last()),
    decreases s.len(),
{
    if s.len() > 0 && is_white_space(s.last()) {
        lemma_trim_end_ends(s.drop_last());
        assert(s.drop_last().take(trim_end(s).len() as int) =~= s.take(
            trim_end(s).len() as int,
        ));
    } else {
        assert(s.take(s.len() as int) =~= s);
    }
}

/// A capital from `A` to `Z` becomes the small letter 32 places on; nothing
/// else changes.
pub proof fn lemma_only_ascii_capitals_change(c: char)
    ensures
        0x41 <= c as int <= 0x5a ==> ascii_lower_char(c) as int == c as int + 32,
        c as int <= 0x40 || c as int >= 0x5b ==> ascii_lower_char(c) == c,
{
}

/// Folding the case keeps every character in its place.
pub proof fn lemma_folding_goes_character_by_character(s: Seq<char>)
    ensures
        ascii_lower(s).len() == s.len(),
        forall|i: int| 0 <= i < s.len() ==> #[trigger] ascii_lower(s)[i] == ascii_lower_char(s[i]),
{
}

/// The code points that are white space.
pub proof fn lemma_white_space_code_points(c: char)
    ensures
        is_white_space(c) <==> 9 <= c as int <= 13 || c as int == 0x20 || c as int == 0x85 || c
            as int == 0xa0 || c as int == 0x1680 || 0x2000 <= c as int <= 0x200a || c as int
            == 0x2028 || c as int == 0x2029 || c as int == 0x202f || c as int == 0x205f || c as int
            == 0x3000,
{
}

proof fn lemma_trim_start_skips(s: Seq<char>, start: int)
    requires
        0 <= start <= s.len(),
        forall|i: int| 0 <= i < start ==> is_white_space(#[trigger] s[i]),
        start < s.len() ==> !is_white_space(s[start]),
    ensures
        trim_start(s) == s.skip(start),
    decreases start,
{
    if start > 0 {
        let rest = s.drop_first();
        assert forall|i: int| 0 <= i < start - 1 implies is_white_space(#[trigger] rest[i]) by {
            assert(rest[i] == s[i + 1]);
        }
        assert(is_white_space(s[0]));
        lemma_trim_start_skips(rest, start - 1);
        assert(rest.skip(start - 1) =~= s.skip(start));
    } else {
        assert(s.skip(0) =~= s);
    }
}

proof fn lemma_trim_end_takes(s: Seq<char>, end: int)
    requires
        0 <= end <= s.len(),
        forall|i: int| end <= i < s.len() ==> is_white_space(#[trigger] s[i]),
        0 < end ==> !is_white_space(s[end - 1]),
    ensures
        trim_end(s) == s.take(end),
    decreases s.len() - end,
{
    if end < s.len() {
        let rest = s.drop_last();
        assert forall|i: int| end <= i < rest.len() implies is_white_space(#[trigger] rest[i]) by {
            assert(rest[i] == s[i]);
        }
        assert(is_white_space(s[s.len() - 1]));
        lemma_trim_end_takes(rest, end);
        assert(rest.take(end) =~= s.take(end));
    } else {
        assert(s.take(s.len() as int) =~= s);
    }
}

/// Trimming takes off white space only, and all of it at both ends: where
/// nothing but white space stands before `start` and from `end` on, and what
/// is between neither starts nor ends with any, that is what is left.
pub proof fn lemma_trimmed_is_what_stands_between(s: Seq<char>, start: int, end: int)
    requires
        0 <= start <= end <= s.len(),
        forall|i: int| 0 <= i < start ==> is_white_space(#[trigger] s[i]),
        forall|i: int| end <= i < s.len() ==> is_white_space(#[trigger] s[i]),
        start < end ==> !is_white_space(s[start]) && !is_white_space(s[end - 1]),
    ensures
        trimmed(s) == s.subrange(start, end),
{
    if start < end {
        lemma_trim_start_skips(s, start);
        let tail = s.skip(start);
        assert forall|i: int| end - start <= i < tail.len() implies is_white_space(
            #[trigger] tail[i],
        ) by {
            assert(tail[i] == s[i + start]);
        }
        lemma_trim_end_takes(tail, end - start);
        assert(tail.take(end - start) =~= s.subrange(start, end));
    } else {
        lemma_trim_start_skips(s, s.len() as int);
        assert(trimmed(s) =~= s.subrange(start, end));
    }
}

/// Every string has such a part: only white space around it, and none at its
/// ends.
pub proof fn lemma_bounds_of_what_is_left(s: Seq<char>) -> (r: (int, int))
    ensures
        0 <= r.0 <= r.1 <= s.len(),
        forall|i: int| 0 <= i < r.0 ==> is_white_space(#[trigger] s[i]),
        forall|i: int| r.1 <= i < s.len() ==> is_white_space(#[trigger] s[i]),
        r.0 < r.1 ==> !is_white_space(s[r.0]) && !is_white_space(s[r.1 - 1]),
    decreases s.len(),
{
    if s.len() == 0 {
        (0, 0)
    } else if is_white_space(s[0]) {
        let rest = s.drop_first();
        let inner = lemma_bounds_of_what_is_left(rest);
        assert forall|i: int| 0 <= i < inner.0 + 1 implies is_white_space(#[trigger] s[i]) by {
            if i > 0 {
                assert(s[i] == rest[i - 1]);
            }
        }
        assert forall|i: int| inner.1 + 1 <= i < s.len() implies is_white_space(
            #[trigger] s[i],
        ) by {
            assert(s[i] == rest[i - 1]);
        }
        (inner.0 + 1, inner.1 + 1)
    } else if is_white_space(s[s.len() - 1]) {
        let rest = s.drop_last();
        let inner = lemma_bounds_of_what_is_left(rest);
        assert(rest[0] == s[0]);
        assert(inner.0 == 0) by {
            if inner.0 > 0 {
                assert(is_white_space(rest[0]));
            }
        }
        assert forall|i: int| inner.1 <= i < s.len() implies is_white_space(#[trigger] s[i]) by {
            if i < s.len() - 1 {
                assert(s[i] == rest[i]);
            }
        }
        inner
    } else {
        (0, s.len() as int)
    }
}

/// A substring that is found stands somewhere in full, character by character.
pub proof fn lemma_found_substring_stands_in_full(haystack: Seq<char>, needle: Seq<char>) -> (at:
    int)
    requires
        has_substring(haystack, needle),
    ensures
        0 <= at,
        at + needle.len() <= haystack.len(),
        forall|j: int| 0 <= j < needle.len() ==> haystack[at + j] == #[trigger] needle[j],
{
    let at = choose|at: int| occurs_at(haystack, needle, at);
    assert forall|j: int| 0 <= j < needle.len() implies haystack[at + j] == #[trigger] needle[j] by {
        assert(haystack.subrange(at, at + needle.len())[j] == haystack[at + j]);
    }
    at
}

/// A substring that stands somewhere in full is found.
pub proof fn lemma_what_stands_in_full_is_found(haystack: Seq<char>, needle: Seq<char>, at: int)
    requires
        0 <= at,
        at + needle.len() <= haystack.len(),
        forall|j: int| 0 <= j < needle.len() ==> haystack[at + j] == #[trigger] needle[j],
    ensures
        has_substring(haystack, needle),
{
    assert(haystack.subrange(at, at + needle.len()) =~= needle);
    assert(occurs_at(haystack, needle, at));
}

/// A decimal number reads back as the number that was written: only digits, no
/// leading zero, and each digit worth ten times the one after it.
pub proof fn lemma_decimal_reads_back(n: nat)
    ensures
        decimal(n).len() >= 1,
        forall|i: int|
            0 <= i < decimal(n).len() ==> 48 <= (#[trigger] decimal(n)[i]) as int <= 57,
        n > 0 ==> decimal(n)[0] as int != 48,
        decimal(n).fold_left(0int, |value: int, c: char| 10 * value + (c as int - 48)) == n,
    decreases n,
{
    let read = |value: int, c: char| 10 * value + (c as int - 48);
    let s = decimal(n);
    if n < 10 {
        assert(s.drop_last() =~= Seq::<char>::empty());
        reveal_with_fuel(Seq::fold_left, 2);
    } else {
        lemma_decimal_reads_back(n / 10);
        assert(s.drop_last() =~= decimal(n / 10));
        reveal_with_fuel(Seq::fold_left, 2);
        assert(s.fold_left(0int, read) == read(s.drop_last().fold_left(0int, read), s.last()));
        assert forall|i: int| 0 <= i < s.len() implies 48 <= (#[trigger] s[i]) as int <= 57 by {
            if i < s.len() - 1 {
                assert(s[i] == decimal(n / 10)[i]);
            }
        }
    }
}

/// Nothing joins to nothing, and one piece to itself.
pub proof fn lemma_joining_one_or_none(piece: Seq<char>, separator: Seq<char>)
    ensures
        joined(seq![], separator) == Seq::<char>::empty(),
        joined(seq![piece], separator) == piece,
{
}

/// Joining two lists of pieces is joining each, with one separator between
/// them.
pub proof fn lemma_joining_goes_piece_by_piece(
    front: Seq<Seq<char>>,
    back: Seq<Seq<char>>,
    separator: Seq<char>,
)
    requires
        front.len() > 0,
        back.len() > 0,
    ensures
        joined(front + back, separator) == joined(front, separator) + separator + joined(
            back,
            separator,
        ),
    decreases back.len(),
{
    let all = front + back;
    assert(all.drop_last() =~= front + back.drop_last());
    if back.len() == 1 {
        assert(front + back.drop_last() =~= front);
        assert(joined(all, separator) =~= joined(front, separator) + separator + joined(
            back,
            separator,
        ));
    } else {
        lemma_joining_goes_piece_by_piece(front, back.drop_last(), separator);
        assert(joined(all, separator) =~= joined(front, separator) + separator + joined(
            back,
            separator,
        ));
    }
}

/// The characters of a list of strings are those of each string in turn.
pub proof fn lemma_views_go_string_by_string(strings: Seq<String>)
    ensures
        views(strings).len() == strings.len(),
        forall|i: int| 0 <= i < strings.len() ==> #[trigger] views(strings)[i] == strings[i]@,
{
}

} // verus!
