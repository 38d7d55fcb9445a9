//! Text handling over sequences of characters.
use vstd::prelude::*;

verus! {

/// Whether `pattern` stands in `text` at position `at`.
pub open spec fn occurs_at(text: Seq<char>, pattern: Seq<char>, at: int) -> bool {
    &&& 0 <= at
    &&& at + pattern.len() <= text.len()
    &&& text.subrange(at, at + pattern.len()) == pattern
}

/// Whether `at` is the leftmost position of `pattern` in `text`.
pub open spec fn first_occurs_at(text: Seq<char>, pattern: Seq<char>, at: int) -> bool {
    &&& occurs_at(text, pattern, at)
    &&& forall|k: int| 0 <= k < at ==> !occurs_at(text, pattern, k)
}

/// `text` divided at the leftmost `pattern`: what stands before it and what stands behind it.
pub open spec fn divided(text: Seq<char>, pattern: Seq<char>) -> Option<(Seq<char>, Seq<char>)> {
    if exists|at: int| first_occurs_at(text, pattern, at) {
        let at = choose|at: int| first_occurs_at(text, pattern, at);
        Some((text.take(at), text.skip(at + pattern.len())))
    } else {
        None
    }
}

/// The pieces of `text` between successive occurrences of `pattern`.
pub open spec fn pieces(text: Seq<char>, pattern: Seq<char>) -> Seq<Seq<char>>
    decreases text.len(),
    when pattern.len() > 0
{
    match divided(text, pattern) {
        Some((head, tail)) => seq![head] + pieces(tail, pattern),
        None => seq![text],
    }
}

/// Whether two texts hold the same characters.
pub fn same_text(a: &str, b: &str) -> (same: bool)
    ensures
        same == (a@ == b@),
{
    a.to_owned() == b.to_owned()
}

/// What follows `prefix` in `text`, if `text` starts with it.
pub fn strip_prefix<'a>(text: &'a str, prefix: &str) -> (rest: Option<&'a str>)
    ensures
        rest is Some == prefix@.is_prefix_of(text@),
        rest matches Some(r) ==> r@ == text@.skip(prefix@.len() as int),
{
    let n: usize = prefix.unicode_len();
    let m: usize = text.unicode_len();
    if n <= m && same_text(text.substring_char(0, n), prefix) {
        Some(text.substring_char(n, m))
    } else {
        None
    }
}

/// The leftmost position of `pattern` in `text`, counted in characters.
pub fn find(text: &str, pattern: &str) -> (at: Option<usize>)
    ensures
        match at {
            Some(i) => first_occurs_at(text@, pattern@, i as int),
            None => forall|k: int| !occurs_at(text@, pattern@, k),
        },
{
    let n: usize = pattern.unicode_len();
    let m: usize = text.unicode_len();
    if n > m {
        return None;
    }
    let mut i: usize = 0;
    while i <= m - n
        invariant
            n == pattern@.len(),
            m == text@.len(),
            n <= m,
            i <= m - n + 1,
            forall|k: int| 0 <= k < i ==> !occurs_at(text@, pattern@, k),
        decreases m - n + 1 - i,
    {
        if same_text(text.substring_char(i, i + n), pattern) {
            return Some(i);
        }
        if i == m - n {
            return None;
        }
        i = i + 1;
    }
    None
}

/// `text` divided at the leftmost `pattern`.
pub fn split_once<'a>(text: &'a str, pattern: &str) -> (parts: Option<(&'a str, &'a str)>)
    ensures
        match parts {
            Some((head, tail)) => divided(text@, pattern@) == Some((head@, tail@)),
            None => divided(text@, pattern@) is None,
        },
{
    match find(text, pattern) {
        Some(at) => {
            let n: usize = pattern.unicode_len();
            let m: usize = text.unicode_len();
            proof {
                assert(first_occurs_at(text@, pattern@, at as int));
                let c = choose|c: int| first_occurs_at(text@, pattern@, c);
                assert(c == at) by {
                    if c < at {
                        assert(occurs_at(text@, pattern@, c));
                    }
                    if at < c {
                        assert(occurs_at(text@, pattern@, at as int));
                    }
                }
            }
            Some((text.substring_char(0, at), text.substring_char(at + n, m)))
        }
        None => None,
    }
}

/// Unicode's `White_Space` property.
pub open spec fn is_white_space(c: char) -> bool {
    ||| '\u{9}' <= c <= '\u{d}'
    ||| c == '\u{20}'
    ||| c == '\u{85}'
    ||| c == '\u{a0}'
    ||| c == '\u{1680}'
    ||| '\u{2000}' <= c <= '\u{200a}'
    ||| c == '\u{2028}'
    ||| c == '\u{2029}'
    ||| c == '\u{202f}'
    ||| c == '\u{205f}'
    ||| c == '\u{3000}'
}

/// `text` without the white space it starts with.
pub open spec fn without_leading_space(text: Seq<char>) -> Seq<char>
    decreases text.len(),
{
    if text.len() > 0 && is_white_space(text.first()) {
        without_leading_space(text.drop_first())
    } else {
        text
    }
}

/// `text` without the white space it ends with.
pub open spec fn without_trailing_space(text: Seq<char>) -> Seq<char>
    decreases text.len(),
{
    if text.len() > 0 && is_white_space(text.last()) {
        without_trailing_space(text.drop_last())
    } else {
        text
    }
}

/// `text` without white space at either end.
pub open spec fn trimmed(text: Seq<char>) -> Seq<char> {
    without_trailing_space(without_leading_space(text))
}

/// `text` without the slashes it ends with.
pub open spec fn without_trailing_slashes(text: Seq<char>) -> Seq<char>
    decreases text.len(),
{
    if text.len() > 0 && text.last() == '/' {
        without_trailing_slashes(text.drop_last())
    } else {
        text
    }
}

/// Whether `c` is white space.
fn white_space(c: char) -> (yes: bool)
    ensures
        yes == is_white_space(c),
{
    ('\u{9}' <= c && c <= '\u{d}') || c == '\u{20}' || c == '\u{85}' || c == '\u{a0}'
        || c == '\u{1680}' || ('\u{2000}' <= c && c <= '\u{200a}') || c == '\u{2028}'
        || c == '\u{2029}' || c == '\u{202f}' || c == '\u{205f}' || c == '\u{3000}'
}

/// `text` without white space at either end.
pub fn trim<'a>(text: &'a str) -> (core: &'a str)
    ensures
        core@ == trimmed(text@),
{
    let n: usize = text.unicode_len();
    let mut from: usize = 0;
    assert(text@.skip(0) =~= text@);
    while from < n && white_space(text.get_char(from))
        invariant
            n == text@.len(),
            from <= n,
            without_leading_space(text@) == without_leading_space(text@.skip(from as int)),
        decreases n - from,
    {
        assert(text@.skip(from as int).drop_first() =~= text@.skip(from + 1));
        from = from + 1;
    }
    assert(without_leading_space(text@) == text@.skip(from as int));
    let mut to: usize = n;
    assert(text@.subrange(from as int, n as int) =~= text@.skip(from as int));
    while from < to && white_space(text.get_char(to - 1))
        invariant
            n == text@.len(),
            from <= to <= n,
            trimmed(text@) == without_trailing_space(text@.subrange(from as int, to as int)),
        decreases to,
    {
        assert(text@.subrange(from as int, to as int).drop_last() =~= text@.subrange(
            from as int,
            to - 1,
        ));
        to = to - 1;
    }
    text.substring_char(from, to)
}

/// `text` without the slashes it ends with.
pub fn trim_trailing_slashes<'a>(text: &'a str) -> (core: &'a str)
    ensures
        core@ == without_trailing_slashes(text@),
{
    let n: usize = text.unicode_len();
    let mut to: usize = n;
    assert(text@.subrange(0, n as int) =~= text@);
    while 0 < to && text.get_char(to - 1) == '/'
        invariant
            n == text@.len(),
            to <= n,
            without_trailing_slashes(text@) == without_trailing_slashes(
                text@.subrange(0, to as int),
            ),
        decreases to,
    {
        assert(text@.subrange(0, to as int).drop_last() =~= text@.subrange(0, to - 1));
        to = to - 1;
    }
    text.substring_char(0, to)
}

/// The text of a string that may be absent.
pub open spec fn optional(text: Option<String>) -> Option<Seq<char>> {
    match text {
        Some(t) => Some(t@),
        None => None,
    }
}

/// The texts of a list of strings.
pub open spec fn texts(list: Seq<String>) -> Seq<Seq<char>> {
    list.map_values(|s: String| s@)
}

/// The elements of `list` one behind the other, with `separator` between neighbours.
pub open spec fn joined(list: Seq<Seq<char>>, separator: Seq<char>) -> Seq<char>
    decreases list.len(),
{
    if list.len() == 0 {
        seq![]
    } else if list.len() == 1 {
        list[0]
    } else {
        joined(list.drop_last(), separator) + separator + list.last()
    }
}

/// Joins `list` with `separator`.
pub fn join(list: &Vec<String>, separator: &str) -> (all: String)
    ensures
        all@ == joined(texts(list@), separator@),
{
    let mut all = String::new();
    let mut i: usize = 0;
    while i < list.len()
        invariant
            i <= list@.len(),
            all@ == joined(texts(list@.take(i as int)), separator@),
        decreases list@.len() - i,
    {
        let ghost next = texts(list@.take(i + 1));
        assert(next.drop_last() =~= texts(list@.take(i as int)));
        assert(next.last() == list@[i as int]@);
        if i > 0 {
            all.append(separator);
        }
        all.append(list[i].as_str());
        assert(all@ =~= joined(next, separator@));
        i = i + 1;
    }
    assert(list@.take(i as int) =~= list@);
    all
}

/// A decimal digit.
pub open spec fn digit(d: nat) -> char {
    (('0' as nat) + d) as char
}

/// The decimal digits of `n`, most significant first.
pub open spec fn decimal(n: nat) -> Seq<char>
    decreases n,
{
    if n < 10 {
        seq![digit(n)]
    } else {
        decimal(n / 10).push(digit(n % 10))
    }
}

fn digit_text(d: usize) -> (t: &'static str)
    requires
        d < 10,
    ensures
        t@ == seq![digit(d as nat)],
{
    proof {
        reveal_strlit("0");
        reveal_strlit("1");
        reveal_strlit("2");
        reveal_strlit("3");
        reveal_strlit("4");
        reveal_strlit("5");
        reveal_strlit("6");
        reveal_strlit("7");
        reveal_strlit("8");
        reveal_strlit("9");
    }
    match d {
        0 => "0",
        1 => "1",
        2 => "2",
        3 => "3",
        4 => "4",
        5 => "5",
        6 => "6",
        7 => "7",
        8 => "8",
        _ => "9",
    }
}

/// Writes `n` in decimal.
pub fn to_decimal(n: usize) -> (t: String)
    ensures
        t@ == decimal(n as nat),
    decreases n,
{
    if n < 10 {
        digit_text(n).to_owned()
    } else {
        let mut t = to_decimal(n / 10);
        t.append(digit_text(n % 10));
        assert(t@ =~= decimal(n as nat));
        t
    }
}

/// Decimal numerals hold digits only.
pub proof fn decimal_is_digits(n: nat)
    ensures
        decimal(n).len() > 0,
        forall|i: int| 0 <= i < decimal(n).len() ==> '0' <= #[trigger] decimal(n)[i] <= '9',
    decreases n,
{
    if n >= 10 {
        decimal_is_digits(n / 10);
    }
}

/// Different numbers have different decimal numerals.
pub proof fn decimal_is_injective(m: nat, n: nat)
    requires
        decimal(m) == decimal(n),
    ensures
        m == n,
    decreases m,
{
    decimal_is_digits(m / 10);
    decimal_is_digits(n / 10);
    assert(decimal(m).last() == digit(m % 10));
    assert(decimal(n).last() == digit(n % 10));
    assert(m % 10 == n % 10);
    if m >= 10 && n >= 10 {
        assert(decimal(m).drop_last() =~= decimal(m / 10));
        assert(decimal(n).drop_last() =~= decimal(n / 10));
        decimal_is_injective(m / 10, n / 10);
    }
}

/// `text` in quotation marks, with what `Debug` escapes escaped.
pub uninterp spec fn quoted_text(text: Seq<char>) -> Seq<char>;

/// Quotes `text` with the `Debug` of `str`. Which characters that escapes is not stated.
#[verifier::external_body]
pub(crate) fn quote(text: &str) -> (quoted: String)
    ensures
        quoted@ == quoted_text(text@),
{
    format!("{text:?}")
}

/// `text` with every line but the first moved to the right.
pub open spec fn indented(text: Seq<char>) -> Seq<char>
    decreases text.len(),
{
    if text.len() == 0 {
        seq![]
    } else if text.last() == '\n' {
        indented(text.drop_last()) + "\n    "@
    } else {
        indented(text.drop_last()) + seq![text.last()]
    }
}

/// Moves every line of `text` but the first to the right.
pub fn indent(text: &str) -> (moved: String)
    ensures
        moved@ == indented(text@),
{
    let n: usize = text.unicode_len();
    let mut moved = String::new();
    let mut i: usize = 0;
    while i < n
        invariant
            n == text@.len(),
            i <= n,
            moved@ == indented(text@.take(i as int)),
        decreases n - i,
    {
        assert(text@.take(i + 1).drop_last() =~= text@.take(i as int));
        if text.get_char(i) == '\n' {
            moved.append("\n    ");
        } else {
            moved.append(text.substring_char(i, i + 1));
            assert(text@.subrange(i as int, i + 1) =~= seq![text@[i as int]]);
        }
        i = i + 1;
    }
    assert(text@.take(n as int) =~= text@);
    moved
}

/// Dividing loses nothing and divides at the leftmost place: the two parts with the pattern between
/// them are the text, and the pattern does not stand any further left. A text that is not divided
/// holds the pattern nowhere.
#[verifier::spinoff_prover]
pub proof fn divided_at_the_first(text: Seq<char>, pattern: Seq<char>)
    ensures
        match divided(text, pattern) {
            Some((head, tail)) => {
                &&& head + pattern + tail == text
                &&& forall|k: int|
                    #![trigger text.subrange(k, k + pattern.len())]
                    0 <= k < head.len() ==> text.subrange(k, k + pattern.len()) != pattern
            },
            None => forall|k: int|
                #![trigger text.subrange(k, k + pattern.len())]
                0 <= k <= text.len() - pattern.len() ==> text.subrange(k, k + pattern.len())
                    != pattern,
        },
{
    match divided(text, pattern) {
        Some((head, tail)) => {
            let at = choose|at: int| first_occurs_at(text, pattern, at);
            assert(first_occurs_at(text, pattern, at));
            assert(text =~= text.take(at) + pattern + text.skip(at + pattern.len()));
            assert forall|k: int|
                #![trigger text.subrange(k, k + pattern.len())]
                0 <= k < head.len() implies text.subrange(k, k + pattern.len()) != pattern by {
                assert(!occurs_at(text, pattern, k));
            }
        },
        None => {
            if exists|k: int|
                #![trigger text.subrange(k, k + pattern.len())]
                0 <= k <= text.len() - pattern.len() && text.subrange(k, k + pattern.len())
                    == pattern {
                let k = choose|k: int|
                    #![trigger text.subrange(k, k + pattern.len())]
                    0 <= k <= text.len() - pattern.len() && text.subrange(k, k + pattern.len())
                        == pattern;
                assert(occurs_at(text, pattern, k));
                first_exists(text, pattern, k);
            }
        },
    }
}

/// Where a pattern stands somewhere, it stands somewhere first.
proof fn first_exists(text: Seq<char>, pattern: Seq<char>, k: int)
    requires
        occurs_at(text, pattern, k),
    ensures
        exists|at: int| first_occurs_at(text, pattern, at),
    decreases k,
{
    if exists|j: int| 0 <= j < k && occurs_at(text, pattern, j) {
        let j = choose|j: int| 0 <= j < k && occurs_at(text, pattern, j);
        first_exists(text, pattern, j);
    } else {
        assert(first_occurs_at(text, pattern, k));
    }
}

/// A text that starts with `head` and `pattern` is divided there, where `pattern` is one character
/// that `head` does not hold.
pub proof fn divided_behind(head: Seq<char>, pattern: Seq<char>, tail: Seq<char>)
    requires
        pattern.len() == 1,
        !head.contains(pattern[0]),
    ensures
        divided(head + pattern + tail, pattern) == Some((head, tail)),
{
    let all = head + pattern + tail;
    let at = head.len() as int;
    assert(all.subrange(at, at + 1) =~= pattern);
    assert forall|k: int| 0 <= k < at implies !occurs_at(all, pattern, k) by {
        assert(all.subrange(k, k + 1)[0] == head[k]);
        assert(head.contains(head[k]));
    }
    assert(first_occurs_at(all, pattern, at));
    let c = choose|c: int| first_occurs_at(all, pattern, c);
    assert(c == at) by {
        if at < c {
            assert(occurs_at(all, pattern, at));
        }
    }
    assert(all.take(at) =~= head);
    assert(all.skip(at + 1) =~= tail);
}

/// A text that does not hold the character `pattern` is not divided by it.
pub proof fn undivided(all: Seq<char>, pattern: Seq<char>)
    requires
        pattern.len() == 1,
        !all.contains(pattern[0]),
    ensures
        divided(all, pattern) is None,
{
    if divided(all, pattern) is Some {
        let c = choose|c: int| first_occurs_at(all, pattern, c);
        assert(first_occurs_at(all, pattern, c));
        assert(all.subrange(c, c + 1)[0] == all[c]);
        assert(all.contains(all[c]));
    }
}

/// The pieces of one text and then, behind a separator, those of another are the pieces of both,
/// where the separator is one character.
#[verifier::spinoff_prover]
pub proof fn pieces_of_both(a: Seq<char>, separator: Seq<char>, b: Seq<char>)
    requires
        separator.len() == 1,
    ensures
        pieces(a + separator + b, separator) == pieces(a, separator) + pieces(b, separator),
    decreases a.len(),
{
    match divided(a, separator) {
        Some((head, tail)) => {
            assert(head + separator + tail == a && !head.contains(separator[0])) by {
                divided_at_the_first(a, separator);
                if head.contains(separator[0]) {
                    let k = choose|k: int| 0 <= k < head.len() && head[k] == separator[0];
                    assert(a[k] == head[k]);
                    assert(a.subrange(k, k + separator.len()) =~= separator);
                }
            }
            let rest = tail + separator + b;
            assert(a + separator + b =~= head + separator + rest);
            assert(divided(head + separator + rest, separator) == Some((head, rest))) by {
                divided_behind(head, separator, rest);
            }
            assert(pieces(rest, separator) == pieces(tail, separator) + pieces(b, separator)) by {
                pieces_of_both(tail, separator, b);
            }
            assert(pieces(a, separator) == seq![head] + pieces(tail, separator));
            assert(pieces(head + separator + rest, separator) == seq![head] + pieces(
                rest,
                separator,
            ));
            assert(seq![head] + (pieces(tail, separator) + pieces(b, separator)) =~= (seq![head]
                + pieces(tail, separator)) + pieces(b, separator));
        },
        None => {
            assert(!a.contains(separator[0])) by {
                divided_at_the_first(a, separator);
                if a.contains(separator[0]) {
                    let k = choose|k: int| 0 <= k < a.len() && a[k] == separator[0];
                    assert(a.subrange(k, k + separator.len()) =~= separator);
                }
            }
            assert(divided(a + separator + b, separator) == Some((a, b))) by {
                divided_behind(a, separator, b);
            }
            assert(pieces(a, separator) == seq![a]);
        },
    }
}

/// Splitting what was joined gives the list back, all of it and in order, where the separator is
/// one character that no element holds.
#[verifier::spinoff_prover]
pub proof fn joined_splits_back(list: Seq<Seq<char>>, separator: Seq<char>)
    requires
        list.len() > 0,
        separator.len() == 1,
        forall|i: int| 0 <= i < list.len() ==> !(#[trigger] list[i]).contains(separator[0]),
    ensures
        pieces(joined(list, separator), separator) == list,
    decreases list.len(),
{
    let last = list[list.len() - 1];
    assert(pieces(last, separator) == seq![last]) by {
        undivided(last, separator);
    }
    if list.len() == 1 {
        assert(list =~= seq![last]);
    } else {
        let before = list.drop_last();
        assert(pieces(joined(before, separator), separator) == before) by {
            joined_splits_back(before, separator);
        }
        let start = joined(before, separator);
        assert(joined(list, separator) == start + separator + last);
        assert(pieces(start + separator + last, separator) == before + seq![last]) by {
            pieces_of_both(start, separator, last);
        }
        assert(list =~= before + seq![last]);
    }
}

/// Joining what was split gives the text back, and no piece holds the separator.
#[verifier::spinoff_prover]
pub proof fn pieces_join_back(text: Seq<char>, separator: Seq<char>)
    requires
        separator.len() > 0,
    ensures
        pieces(text, separator).len() > 0,
        joined(pieces(text, separator), separator) == text,
        forall|i: int, k: int|
            #![trigger pieces(text, separator)[i].subrange(k, k + separator.len())]
            0 <= i < pieces(text, separator).len() && 0 <= k <= pieces(text, separator)[i].len()
                - separator.len() ==> pieces(text, separator)[i].subrange(k, k + separator.len())
                != separator,
    decreases text.len(),
{
    divided_at_the_first(text, separator);
    match divided(text, separator) {
        Some((head, tail)) => {
            pieces_join_back(tail, separator);
            let rest = pieces(tail, separator);
            assert(pieces(text, separator) == seq![head] + rest);
            joined_from_the_front(head, rest, separator);
            assert(text =~= head + separator + tail);
            assert forall|i: int, k: int|
                #![trigger pieces(text, separator)[i].subrange(k, k + separator.len())]
                0 <= i < pieces(text, separator).len() && 0 <= k <= pieces(text, separator)[i].len()
                    - separator.len() implies pieces(text, separator)[i].subrange(
                k,
                k + separator.len(),
            ) != separator by {
                if i == 0 {
                    assert(head.subrange(k, k + separator.len()) =~= text.subrange(
                        k,
                        k + separator.len(),
                    ));
                } else {
                    assert(pieces(text, separator)[i] == rest[i - 1]);
                    assert(rest[i - 1].subrange(k, k + separator.len()) != separator);
                }
            }
        },
        None => {
            assert(pieces(text, separator) == seq![text]);
        },
    }
}

/// Joining starts with the first element as well as it ends with the last.
pub proof fn joined_from_the_front(
    head: Seq<char>,
    rest: Seq<Seq<char>>,
    separator: Seq<char>,
)
    requires
        rest.len() > 0,
    ensures
        joined(seq![head] + rest, separator) == head + separator + joined(rest, separator),
    decreases rest.len(),
{
    let all = seq![head] + rest;
    if rest.len() == 1 {
        assert(all.drop_last() =~= seq![head]);
        assert(joined(seq![head], separator) == head);
        assert(all.last() == rest[0]);
        assert(joined(all, separator) == head + separator + rest[0]);
    } else {
        assert(all.drop_last() =~= seq![head] + rest.drop_last());
        joined_from_the_front(head, rest.drop_last(), separator);
        assert(all.last() == rest.last());
        assert(joined(all, separator) =~= head + separator + (joined(rest.drop_last(), separator)
            + separator + rest.last()));
    }
}

/// The twenty-five characters that Unicode calls white space.
pub proof fn white_space_is_unicodes(c: char)
    ensures
        is_white_space(c) <==> seq![
            0x9int,
            0xa,
            0xb,
            0xc,
            0xd,
            0x20,
            0x85,
            0xa0,
            0x1680,
            0x2000,
            0x2001,
            0x2002,
            0x2003,
            0x2004,
            0x2005,
            0x2006,
            0x2007,
            0x2008,
            0x2009,
            0x200a,
            0x2028,
            0x2029,
            0x202f,
            0x205f,
            0x3000,
        ].contains(c as int),
{
    let list = seq![
        0x9int,
        0xa,
        0xb,
        0xc,
        0xd,
        0x20,
        0x85,
        0xa0,
        0x1680,
        0x2000,
        0x2001,
        0x2002,
        0x2003,
        0x2004,
        0x2005,
        0x2006,
        0x2007,
        0x2008,
        0x2009,
        0x200a,
        0x2028,
        0x2029,
        0x202f,
        0x205f,
        0x3000,
    ];
    if is_white_space(c) {
        let n = c as int;
        let k: int = if n <= 0xd {
            n - 0x9
        } else if n == 0x20 {
            5
        } else if n == 0x85 {
            6
        } else if n == 0xa0 {
            7
        } else if n == 0x1680 {
            8
        } else if n <= 0x200a {
            9 + (n - 0x2000)
        } else if n == 0x2028 {
            20
        } else if n == 0x2029 {
            21
        } else if n == 0x202f {
            22
        } else if n == 0x205f {
            23
        } else {
            24
        };
        assert(list[k] == n);
    }
}

/// White space around a text goes, and nothing else: a text that neither starts nor ends with any
/// is what is left of it with any white space around it.
pub proof fn trimmed_to_the_core(before: Seq<char>, core: Seq<char>, behind: Seq<char>)
    requires
        forall|i: int| 0 <= i < before.len() ==> is_white_space(#[trigger] before[i]),
        forall|i: int| 0 <= i < behind.len() ==> is_white_space(#[trigger] behind[i]),
        core.len() > 0 ==> !is_white_space(core.first()) && !is_white_space(core.last()),
    ensures
        trimmed(before + core + behind) == core,
    decreases before.len() + behind.len(),
{
    let all = before + core + behind;
    if core.len() == 0 {
        all_space_goes(all);
    } else if before.len() > 0 {
        assert(all.drop_first() =~= before.drop_first() + core + behind);
        assert(all.first() == before[0]);
        trimmed_to_the_core(before.drop_first(), core, behind);
    } else {
        assert(all.first() == core.first());
        assert(all =~= core + behind);
        assert(without_leading_space(all) == all);
        trailing_space_goes(core, behind);
    }
}

proof fn all_space_goes(all: Seq<char>)
    requires
        forall|i: int| 0 <= i < all.len() ==> is_white_space(#[trigger] all[i]),
    ensures
        trimmed(all) == Seq::<char>::empty(),
    decreases all.len(),
{
    if all.len() > 0 {
        assert(all.first() == all[0]);
        all_space_goes(all.drop_first());
    }
}

proof fn trailing_space_goes(core: Seq<char>, behind: Seq<char>)
    requires
        forall|i: int| 0 <= i < behind.len() ==> is_white_space(#[trigger] behind[i]),
        core.len() > 0,
        !is_white_space(core.last()),
    ensures
        without_trailing_space(core + behind) == core,
    decreases behind.len(),
{
    let all = core + behind;
    if behind.len() > 0 {
        assert(all.last() == behind[behind.len() - 1]);
        assert(all.drop_last() =~= core + behind.drop_last());
        trailing_space_goes(core, behind.drop_last());
    } else {
        assert(all =~= core);
    }
}

/// Slashes behind a text go, all of them and nothing else.
pub proof fn slashes_go(core: Seq<char>, slashes: Seq<char>)
    requires
        forall|i: int| 0 <= i < slashes.len() ==> (#[trigger] slashes[i]) == '/',
        core.len() > 0 ==> core.last() != '/',
    ensures
        without_trailing_slashes(core + slashes) == core,
    decreases slashes.len(),
{
    let all = core + slashes;
    if slashes.len() > 0 {
        assert(all.last() == slashes[slashes.len() - 1]);
        assert(all.drop_last() =~= core + slashes.drop_last());
        slashes_go(core, slashes.drop_last());
    } else {
        assert(all =~= core);
    }
}

/// Every text has white space before it and behind it, maybe none, and a core without.
pub proof fn trimmed_is_part(text: Seq<char>) -> (parts: (Seq<char>, Seq<char>))
    ensures
        text == parts.0 + trimmed(text) + parts.1,
        forall|i: int| 0 <= i < parts.0.len() ==> is_white_space(#[trigger] parts.0[i]),
        forall|i: int| 0 <= i < parts.1.len() ==> is_white_space(#[trigger] parts.1[i]),
        trimmed(text).len() > 0 ==> !is_white_space(trimmed(text).first()) && !is_white_space(
            trimmed(text).last(),
        ),
    decreases text.len(),
{
    if text.len() > 0 && is_white_space(text.first()) {
        let (before, behind) = trimmed_is_part(text.drop_first());
        let first = seq![text.first()] + before;
        assert(text =~= seq![text.first()] + text.drop_first());
        assert(first + trimmed(text) + behind =~= text);
        (first, behind)
    } else {
        let behind = trailing_part(text);
        assert(trimmed(text) == without_trailing_space(text));
        assert(Seq::<char>::empty() + trimmed(text) + behind =~= text);
        if trimmed(text).len() > 0 {
            assert(trimmed(text).first() == text.first());
        }
        (Seq::empty(), behind)
    }
}

proof fn trailing_part(text: Seq<char>) -> (behind: Seq<char>)
    ensures
        text == without_trailing_space(text) + behind,
        forall|i: int| 0 <= i < behind.len() ==> is_white_space(#[trigger] behind[i]),
        without_trailing_space(text).len() > 0 ==> !is_white_space(
            without_trailing_space(text).last(),
        ),
    decreases text.len(),
{
    if text.len() > 0 && is_white_space(text.last()) {
        let before = trailing_part(text.drop_last());
        let behind = before.push(text.last());
        assert(text =~= text.drop_last().push(text.last()));
        assert(without_trailing_space(text) + behind =~= text);
        behind
    } else {
        assert(text + Seq::<char>::empty() =~= text);
        Seq::empty()
    }
}

/// The number that decimal digits write.
pub open spec fn value(digits: Seq<char>) -> int
    decreases digits.len(),
{
    if digits.len() == 0 {
        0
    } else {
        value(digits.drop_last()) * 10 + (digits.last() as int - 0x30)
    }
}

/// A numeral writes the number that it was made from, with digits only and without a zero in front.
pub proof fn decimal_reads_back(n: nat)
    ensures
        value(decimal(n)) == n,
        decimal(n).len() > 0,
        forall|i: int| 0 <= i < decimal(n).len() ==> 0x30 <= #[trigger] decimal(n)[i] as int <= 0x39,
        decimal(n).len() > 1 ==> decimal(n)[0] as int != 0x30,
    decreases n,
{
    decimal_is_digits(n);
    let last = decimal(n).drop_last();
    assert(decimal(n).last() as int == 0x30 + n % 10);
    if n < 10 {
        assert(last =~= Seq::<char>::empty());
        assert(value(last) == 0);
    } else {
        assert(last =~= decimal(n / 10));
        decimal_reads_back(n / 10);
        if n / 10 < 10 {
            assert(decimal(n / 10)[0] as int == 0x30 + n / 10);
        } else {
            decimal_is_digits((n / 10) / 10);
            assert(decimal(n / 10) == decimal((n / 10) / 10).push(digit((n / 10) % 10)));
        }
        assert(decimal(n)[0] == decimal(n / 10)[0]);
    }
}

/// Every line but the first is moved by four columns, and nothing else changes: a line break moves
/// what follows, a text without one stays, and parts are moved like the whole.
pub proof fn indented_line_by_line(a: Seq<char>, b: Seq<char>)
    ensures
        indented(a + b) == indented(a) + indented(b),
        !a.contains('\n') ==> indented(a) == a,
        indented(seq!['\n']) == seq!['\n', ' ', ' ', ' ', ' '],
    decreases a.len() + b.len(),
{
    reveal_strlit("\n    ");
    assert(seq!['\n'].drop_last() =~= Seq::<char>::empty());
    assert(indented(Seq::<char>::empty()) == Seq::<char>::empty());
    assert(indented(seq!['\n']) =~= seq!['\n', ' ', ' ', ' ', ' ']);
    if b.len() > 0 {
        assert((a + b).drop_last() =~= a + b.drop_last());
        indented_line_by_line(a, b.drop_last());
        assert(indented(a + b) =~= indented(a) + indented(b));
    } else {
        assert(a + b =~= a);
        assert(indented(b) == Seq::<char>::empty());
        if a.len() > 0 {
            indented_line_by_line(a.drop_last(), b);
            if !a.contains('\n') {
                assert(a.contains(a.last()));
                assert forall|c: char| a.drop_last().contains(c) implies a.contains(c) by {
                    let k = choose|k: int| 0 <= k < a.drop_last().len() && a.drop_last()[k] == c;
                    assert(a[k] == c);
                }
                assert(a.drop_last() + seq![a.last()] =~= a);
            }
        }
        assert(indented(a) + indented(b) =~= indented(a));
    }
}

/// The texts of strings are those of each, in order.
pub proof fn texts_of_each(list: Seq<String>, one: Option<String>)
    ensures
        texts(list).len() == list.len(),
        forall|i: int| 0 <= i < list.len() ==> #[trigger] texts(list)[i] == list[i]@,
        one is None <==> optional(one) is None,
        one matches Some(s) ==> optional(one) == Some(s@),
{
}

} // verus!
