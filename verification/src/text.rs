//! Texts: the few string operations the other modules need, each with what it
//! computes on the characters.

use vstd::prelude::*;

verus! {

/// The texts that a list of strings holds.
pub open spec fn texts(list: Seq<String>) -> Seq<Seq<char>> {
    list.map_values(|s: String| s@)
}

/// The text that an optional string holds.
pub open spec fn opt_text(value: Option<String>) -> Option<Seq<char>> {
    match value {
        Some(s) => Some(s@),
        None => None,
    }
}

/// Whether `s` holds exactly the text `t`.
pub fn is_text(s: &String, t: &str) -> (same: bool)
    ensures
        same == (s@ == t@),
{
    *s == t.to_owned()
}

/// Whether `s` begins with `prefix`.
pub fn starts_with(s: &str, prefix: &str) -> (yes: bool)
    ensures
        yes == prefix@.is_prefix_of(s@),
{
    let n: usize = prefix.unicode_len();
    if s.unicode_len() < n {
        return false;
    }
    let head: String = s.substring_char(0, n).to_owned();
    head == prefix.to_owned()
}

/// The text after `prefix`, where `s` begins with it.
pub fn strip_prefix(s: &str, prefix: &str) -> (rest: Option<String>)
    ensures
        opt_text(rest) == (if prefix@.is_prefix_of(s@) {
            Some(s@.skip(prefix@.len() as int))
        } else {
            None
        }),
{
    if starts_with(s, prefix) {
        let n: usize = prefix.unicode_len();
        let len: usize = s.unicode_len();
        Some(s.substring_char(n, len).to_owned())
    } else {
        None
    }
}

/// The characters of a text, one by one.
pub fn chars_of(s: &str) -> (chars: Vec<char>)
    ensures
        chars@ == s@,
{
    let mut chars: Vec<char> = Vec::new();
    for c in it: s.chars()
        invariant
            it.seq() == s@,
            chars@ == s@.take(it.index() as int),
    {
        assert(s@.take(it.index() + 1) == s@.take(it.index() as int).push(c));
        chars.push(c);
    }
    assert(s@.take(s@.len() as int) == s@);
    chars
}

/// Unicode's `White_Space` property.
pub open spec fn whitespace(c: char) -> bool {
    let n = c as u32;
    ||| 0x9 <= n <= 0xD
    ||| n == 0x20
    ||| n == 0x85
    ||| n == 0xA0
    ||| n == 0x1680
    ||| 0x2000 <= n <= 0x200A
    ||| n == 0x2028
    ||| n == 0x2029
    ||| n == 0x202F
    ||| n == 0x205F
    ||| n == 0x3000
}

/// Whether `c` has Unicode's `White_Space` property.
pub fn is_whitespace(c: char) -> (yes: bool)
    ensures
        yes == whitespace(c),
{
    let n: u32 = c as u32;
    (0x9 <= n && n <= 0xD) || n == 0x20 || n == 0x85 || n == 0xA0 || n == 0x1680
        || (0x2000 <= n && n <= 0x200A) || n == 0x2028 || n == 0x2029 || n == 0x202F
        || n == 0x205F || n == 0x3000
}

/// `s` without its leading whitespace.
pub open spec fn trimmed_start(s: Seq<char>) -> Seq<char>
    decreases s.len(),
{
    if s.len() > 0 && whitespace(s[0]) {
        trimmed_start(s.drop_first())
    } else {
        s
    }
}

/// `s` without its trailing whitespace.
pub open spec fn trimmed_end(s: Seq<char>) -> Seq<char>
    decreases s.len(),
{
    if s.len() > 0 && whitespace(s.last()) {
        trimmed_end(s.drop_last())
    } else {
        s
    }
}

/// `s` without leading and trailing whitespace.
pub open spec fn trimmed(s: Seq<char>) -> Seq<char> {
    trimmed_end(trimmed_start(s))
}

/// `s` without leading and trailing whitespace.
pub fn trim(s: &str) -> (t: String)
    ensures
        t@ == trimmed(s@),
{
    let chars: Vec<char> = chars_of(s);
    let len: usize = chars.len();
    let mut from: usize = 0;
    assert(s@.skip(0) == s@);
    while from < len && is_whitespace(chars[from])
        invariant
            from <= len == chars.len(),
            chars@ == s@,
            trimmed_start(s@) == trimmed_start(s@.skip(from as int)),
        decreases len - from,
    {
        assert(s@.skip(from as int).drop_first() == s@.skip(from + 1));
        from = from + 1;
    }
    let ghost start = s@.skip(from as int);
    assert(trimmed_start(s@) == start);
    let mut to: usize = len;
    assert(s@.subrange(from as int, to as int) == start);
    while from < to && is_whitespace(chars[to - 1])
        invariant
            from <= to <= len == chars.len(),
            chars@ == s@,
            trimmed_end(start) == trimmed_end(s@.subrange(from as int, to as int)),
        decreases to,
    {
        assert(s@.subrange(from as int, to as int).drop_last() == s@.subrange(
            from as int,
            to - 1,
        ));
        to = to - 1;
    }
    s.substring_char(from, to).to_owned()
}

/// Trimming never lengthens a text.
proof fn trimming_shortens(s: Seq<char>)
    ensures
        trimmed_start(s).len() <= s.len(),
        trimmed_end(s).len() <= s.len(),
    decreases s.len(),
{
    if s.len() > 0 {
        trimming_shortens(s.drop_first());
        trimming_shortens(s.drop_last());
    }
}

/// A text is its own trimming exactly where it neither begins nor ends with
/// whitespace.
pub proof fn trimmed_texts_have_bare_ends(s: Seq<char>)
    ensures
        trimmed(s) == s <==> (s.len() > 0 ==> !whitespace(s[0]) && !whitespace(s.last())),
{
    if s.len() > 0 {
        if whitespace(s[0]) {
            trimming_shortens(s.drop_first());
            trimming_shortens(trimmed_start(s));
        } else if whitespace(s.last()) {
            trimming_shortens(s.drop_last());
        }
    }
}

/// What is trimmed at one end has no whitespace there, and trimming the end
/// leaves a beginning of the text.
proof fn trimming_bares_the_ends(s: Seq<char>)
    ensures
        trimmed_start(s).len() > 0 ==> !whitespace(trimmed_start(s)[0]),
        trimmed_end(s).len() > 0 ==> !whitespace(trimmed_end(s).last()) && trimmed_end(s)[0] == s[0],
    decreases s.len(),
{
    if s.len() > 0 {
        trimming_bares_the_ends(s.drop_first());
        trimming_bares_the_ends(s.drop_last());
        trimming_shortens(s.drop_last());
    }
}

/// Trimming twice is trimming once.
pub proof fn trimming_is_idempotent(s: Seq<char>)
    ensures
        trimmed(trimmed(s)) == trimmed(s),
{
    trimming_bares_the_ends(s);
    trimming_bares_the_ends(trimmed_start(s));
    trimming_shortens(trimmed_start(s));
    trimmed_texts_have_bare_ends(trimmed(s));
}

/// The pieces of `s` between the occurrences of `sep`.
pub open spec fn pieces<T>(s: Seq<T>, sep: T) -> Seq<Seq<T>>
    decreases s.len(),
{
    if s.len() == 0 {
        seq![Seq::<T>::empty()]
    } else {
        let before = pieces(s.drop_last(), sep);
        if s.last() == sep {
            before.push(Seq::<T>::empty())
        } else {
            before.drop_last().push(before.last().push(s.last()))
        }
    }
}

/// A text without a separator is its only piece.
pub proof fn pieces_of_one<T>(s: Seq<T>, sep: T)
    requires
        !s.contains(sep),
    ensures
        pieces(s, sep) == seq![s],
    decreases s.len(),
{
    if s.len() > 0 {
        assert(s.contains(s.last()));
        assert forall|i: int| 0 <= i < s.len() - 1 implies s.drop_last()[i] != sep by {
            assert(s.contains(s[i]));
        }
        pieces_of_one(s.drop_last(), sep);
        assert(s.drop_last().push(s.last()) == s);
        assert(pieces(s, sep) == seq![s]);
    } else {
        assert(s == Seq::<T>::empty());
    }
}

/// The pieces of two texts with a separator between them are those of the first
/// and then those of the second.
pub proof fn pieces_of_two<T>(a: Seq<T>, sep: T, b: Seq<T>)
    ensures
        pieces(a.push(sep) + b, sep) == pieces(a, sep) + pieces(b, sep),
        pieces(b, sep).len() > 0,
    decreases b.len(),
{
    let whole = a.push(sep) + b;
    if b.len() == 0 {
        assert(whole == a.push(sep));
        assert(whole.drop_last() == a);
        assert(pieces(a, sep).push(Seq::<T>::empty()) == pieces(a, sep) + pieces(b, sep));
    } else {
        pieces_of_two(a, sep, b.drop_last());
        assert(whole.drop_last() == a.push(sep) + b.drop_last());
        assert(pieces(whole, sep) == pieces(a, sep) + pieces(b, sep));
    }
}

/// The pieces of `s` between the occurrences of `sep`.
pub fn split(s: &str, sep: char) -> (list: Vec<String>)
    ensures
        texts(list@) == pieces(s@, sep),
{
    let chars: Vec<char> = chars_of(s);
    let len: usize = chars.len();
    let mut list: Vec<String> = Vec::new();
    let mut start: usize = 0;
    let mut i: usize = 0;
    assert(s@.take(0) == Seq::<char>::empty());
    assert(texts(list@).push(s@.subrange(0, 0)) == pieces(s@.take(0), sep));
    while i < len
        invariant
            start <= i <= len == chars.len(),
            chars@ == s@,
            texts(list@).push(s@.subrange(start as int, i as int)) == pieces(
                s@.take(i as int),
                sep,
            ),
        decreases len - i,
    {
        let ghost done = texts(list@);
        let ghost piece = s@.subrange(start as int, i as int);
        assert(s@.take(i + 1).drop_last() == s@.take(i as int));
        assert(done.push(piece).drop_last() == done);
        if chars[i] == sep {
            list.push(s.substring_char(start, i).to_owned());
            start = i + 1;
            assert(texts(list@) == done.push(piece));
            assert(s@.subrange(start as int, i + 1) == Seq::<char>::empty());
        } else {
            assert(s@.subrange(start as int, i + 1) == piece.push(s@[i as int]));
        }
        i = i + 1;
    }
    assert(s@.take(len as int) == s@);
    let ghost done = texts(list@);
    list.push(s.substring_char(start, len).to_owned());
    assert(texts(list@) == done.push(s@.subrange(start as int, len as int)));
    list
}

/// Whether `needle` occurs somewhere in `hay`.
pub open spec fn occurs_in(needle: Seq<char>, hay: Seq<char>) -> bool {
    exists|i: int| #[trigger] occurs_at(needle, hay, i)
}

/// Whether `needle` occurs in `hay` at position `i`.
pub open spec fn occurs_at(needle: Seq<char>, hay: Seq<char>, i: int) -> bool {
    0 <= i && i + needle.len() <= hay.len() && hay.subrange(i, i + needle.len()) == needle
}

/// Whether `needle` stands in `hay` at position `i`.
fn stands_at(needle: &Vec<char>, hay: &Vec<char>, i: usize) -> (yes: bool)
    requires
        i + needle.len() <= hay.len(),
    ensures
        yes == occurs_at(needle@, hay@, i as int),
{
    let ghost here = hay@.subrange(i as int, i + needle.len());
    let mut j: usize = 0;
    while j < needle.len()
        invariant
            j <= needle.len(),
            i + needle.len() <= hay.len(),
            here == hay@.subrange(i as int, i + needle.len()),
            forall|k: int| 0 <= k < j ==> here[k] == needle@[k],
        decreases needle.len() - j,
    {
        assert(here[j as int] == hay@[i + j]);
        if hay[i + j] != needle[j] {
            return false;
        }
        j = j + 1;
    }
    assert(here == needle@);
    true
}

/// Whether `needle` occurs somewhere in `hay`.
pub fn contains(hay: &str, needle: &str) -> (yes: bool)
    ensures
        yes == occurs_in(needle@, hay@),
{
    let hay_chars: Vec<char> = chars_of(hay);
    let needle_chars: Vec<char> = chars_of(needle);
    let h: usize = hay_chars.len();
    let n: usize = needle_chars.len();
    let mut i: usize = 0;
    while n <= h - i
        invariant
            i <= h,
            h == hay_chars.len(),
            n == needle_chars.len(),
            hay_chars@ == hay@,
            needle_chars@ == needle@,
            forall|j: int| 0 <= j < i ==> !#[trigger] occurs_at(needle@, hay@, j),
        decreases h - i,
    {
        if stands_at(&needle_chars, &hay_chars, i) {
            return true;
        }
        if i == h {
            return false;
        }
        i = i + 1;
    }
    false
}

/// The decimal digit of a number below ten.
pub open spec fn digit(n: nat) -> char {
    (('0' as u32) + n) as char
}

/// A number written in decimal, without leading zeros.
pub open spec fn decimal(n: nat) -> Seq<char>
    decreases n,
{
    if n < 10 {
        seq![digit(n)]
    } else {
        decimal(n / 10).push(digit(n % 10))
    }
}

/// The one-digit text of a number below ten.
fn digit_text(n: u32) -> (s: &'static str)
    requires
        n < 10,
    ensures
        s@ == seq![digit(n as nat)],
{
    proof {
        reveal_strlit("0");
        reveal_strlit("1");
        reveal_strlit("2");
        reveal_strlit("3");
        reveal_strlit("4");
        reveal_strlit("5");
        reveal_strlit("6");
        reveal_strlit("7");
        reveal_strlit("8");
        reveal_strlit("9");
    }
    let s: &'static str = match n {
        0 => "0",
        1 => "1",
        2 => "2",
        3 => "3",
        4 => "4",
        5 => "5",
        6 => "6",
        7 => "7",
        8 => "8",
        _ => "9",
    };
    s
}

/// `n` written in decimal.
pub fn to_decimal(n: u32) -> (s: String)
    ensures
        s@ == decimal(n as nat),
    decreases n,
{
    let last: &'static str = digit_text(n % 10);
    if n < 10 {
        last.to_owned()
    } else {
        let mut s: String = to_decimal(n / 10);
        s.append(last);
        assert(s@ == decimal(n as nat));
        s
    }
}

/// The texts of `list`, with `sep` between neighbours.
pub open spec fn joined(list: Seq<Seq<char>>, sep: Seq<char>) -> Seq<char>
    decreases list.len(),
{
    if list.len() == 0 {
        Seq::empty()
    } else if list.len() == 1 {
        list[0]
    } else {
        joined(list.drop_last(), sep) + sep + list.last()
    }
}

/// The texts of `list`, with `sep` between neighbours.
pub fn join(list: &Vec<String>, sep: &str) -> (s: String)
    ensures
        s@ == joined(texts(list@), sep@),
{
    let ghost all = texts(list@);
    let mut s: String = String::new();
    let mut i: usize = 0;
    while i < list.len()
        invariant
            i <= list.len(),
            all == texts(list@),
            s@ == joined(all.take(i as int), sep@),
        decreases list.len() - i,
    {
        assert(all.take(i + 1).drop_last() == all.take(i as int));
        if i > 0 {
            s.append(sep);
        } else {
            assert(s@ + list@[0]@ == list@[0]@);
        }
        s.append(list[i].as_str());
        i = i + 1;
    }
    assert(all.take(list.len() as int) == all);
    s
}

/// The first position from `from` on at which `c` stands, or the length where
/// it stands nowhere.
pub open spec fn first_index(s: Seq<char>, c: char, from: int) -> int
    decreases s.len() - from,
{
    if from >= s.len() {
        s.len() as int
    } else if s[from] == c {
        from
    } else {
        first_index(s, c, from + 1)
    }
}

/// The texts before and after the first `sep`, where there is one.
pub open spec fn halves(s: Seq<char>, sep: char) -> Option<(Seq<char>, Seq<char>)> {
    let i = first_index(s, sep, 0);
    if i < s.len() {
        Some((s.take(i), s.skip(i + 1)))
    } else {
        None
    }
}

/// A text without `sep` is what stands before the first one after it.
pub proof fn halves_of_a_joined_pair(before: Seq<char>, sep: char, after: Seq<char>)
    requires
        !before.contains(sep),
    ensures
        halves(before.push(sep) + after, sep) == Some((before, after)),
{
    let whole = before.push(sep) + after;
    first_index_is_after(before, sep, after, 0);
    assert(whole.take(before.len() as int) == before);
    assert(whole.skip(before.len() as int + 1) == after);
}

/// The first `sep` stands right after a text without it.
proof fn first_index_is_after(before: Seq<char>, sep: char, after: Seq<char>, from: int)
    requires
        !before.contains(sep),
        0 <= from <= before.len(),
    ensures
        first_index(before.push(sep) + after, sep, from) == before.len(),
    decreases before.len() - from,
{
    if from < before.len() {
        assert(before[from] != sep);
        first_index_is_after(before, sep, after, from + 1);
    }
}

/// The texts before and after the first `sep`, where there is one.
pub fn split_once(s: &str, sep: char) -> (parts: Option<(String, String)>)
    ensures
        match parts {
            Some((before, after)) => halves(s@, sep) == Some((before@, after@)),
            None => halves(s@, sep) is None,
        },
{
    let chars: Vec<char> = chars_of(s);
    let len: usize = chars.len();
    let mut i: usize = 0;
    while i < len
        invariant
            i <= len == chars.len(),
            chars@ == s@,
            first_index(s@, sep, 0) == first_index(s@, sep, i as int),
        decreases len - i,
    {
        if chars[i] == sep {
            let before: String = s.substring_char(0, i).to_owned();
            let after: String = s.substring_char(i + 1, len).to_owned();
            assert(s@.subrange(0, i as int) == s@.take(i as int));
            assert(s@.subrange(i + 1, len as int) == s@.skip(i + 1));
            return Some((before, after));
        }
        i = i + 1;
    }
    None
}

/// The texts of a list are those of its strings, one by one.
pub proof fn texts_are_those_of_the_strings(list: Seq<String>)
    ensures
        texts(list).len() == list.len(),
        forall|i: int| 0 <= i < list.len() ==> #[trigger] texts(list)[i] == list[i]@,
{
}

/// Whitespace is what Unicode calls so.
pub proof fn whitespace_is_what_unicode_says(c: char, yes: bool)
    requires
        call_ensures(is_whitespace, (c,), yes),
    ensures
        whitespace(c) == yes,
        yes <==> (c == ' ' || '\u{9}' <= c <= '\u{d}' || c == '\u{85}' || c == '\u{a0}' || c
            == '\u{1680}' || '\u{2000}' <= c <= '\u{200a}' || c == '\u{2028}' || c == '\u{2029}'
            || c == '\u{202f}' || c == '\u{205f}' || c == '\u{3000}'),
{
}

/// What trimming takes off one end is whitespace.
proof fn trimming_takes_off_whitespace(s: Seq<char>)
    ensures
        exists|a: Seq<char>| #[trigger] (a + trimmed_start(s)) == s && all_whitespace(a),
        exists|b: Seq<char>| #[trigger] (trimmed_end(s) + b) == s && all_whitespace(b),
    decreases s.len(),
{
    let none = Seq::<char>::empty();
    assert(all_whitespace(none));
    if s.len() > 0 {
        trimming_takes_off_whitespace(s.drop_first());
        trimming_takes_off_whitespace(s.drop_last());
    }
    if s.len() > 0 && whitespace(s[0]) {
        let rest = s.drop_first();
        let a = choose|a: Seq<char>| #[trigger]
            (a + trimmed_start(rest)) == rest && all_whitespace(a);
        let more = seq![s[0]] + a;
        assert(more + trimmed_start(s) == seq![s[0]] + rest);
        assert(seq![s[0]] + rest == s);
        assert(more + trimmed_start(s) == s && all_whitespace(more));
    } else {
        assert(none + trimmed_start(s) == s);
    }
    if s.len() > 0 && whitespace(s.last()) {
        let rest = s.drop_last();
        let b = choose|b: Seq<char>| #[trigger]
            (trimmed_end(rest) + b) == rest && all_whitespace(b);
        let more = b.push(s.last());
        assert(trimmed_end(s) + more == rest.push(s.last()));
        assert(trimmed_end(s) + more == s && all_whitespace(more));
    } else {
        assert(trimmed_end(s) + none == s);
    }
}

/// Whether a text is nothing but whitespace.
pub open spec fn all_whitespace(s: Seq<char>) -> bool {
    forall|i: int| 0 <= i < s.len() ==> whitespace(#[trigger] s[i])
}

/// Trimming takes whitespace, and only whitespace, off both ends, and leaves
/// none there.
pub proof fn trimming_bares_both_ends(s: &str, t: String)
    requires
        call_ensures(trim, (s,), t),
    ensures
        exists|a: Seq<char>, b: Seq<char>| #[trigger]
            (a + t@ + b) == s@ && all_whitespace(a) && all_whitespace(b),
        t@.len() > 0 ==> !whitespace(t@[0]) && !whitespace(t@.last()),
        t@.len() == 0 <==> all_whitespace(s@),
{
    let start = trimmed_start(s@);
    trimming_takes_off_whitespace(s@);
    trimming_takes_off_whitespace(start);
    trimming_is_idempotent(s@);
    trimmed_texts_have_bare_ends(t@);
    let a = choose|a: Seq<char>| #[trigger] (a + start) == s@ && all_whitespace(a);
    let b = choose|b: Seq<char>| #[trigger] (trimmed_end(start) + b) == start && all_whitespace(b);
    assert(a + t@ + b == s@);
    blank_texts_are_whitespace(s@);
}

/// A text is where another one occurs exactly where it can be cut so that the
/// other one is the middle.
pub proof fn what_is_contained_stands_between(hay: &str, needle: &str, yes: bool)
    requires
        call_ensures(contains, (hay, needle), yes),
    ensures
        yes <==> exists|a: Seq<char>, b: Seq<char>| #[trigger] (a + needle@ + b) == hay@,
{
    occurrences_stand_between(needle@, hay@);
}

/// A text occurs exactly where it is the middle of a cut.
pub proof fn occurrences_stand_between(needle: Seq<char>, hay: Seq<char>)
    ensures
        occurs_in(needle, hay) <==> exists|a: Seq<char>, b: Seq<char>| #[trigger]
            (a + needle + b) == hay,
{
    if occurs_in(needle, hay) {
        let i = choose|i: int| #[trigger] occurs_at(needle, hay, i);
        let a = hay.take(i);
        let b = hay.skip(i + needle.len());
        assert(a + needle + b == hay);
    }
    if exists|a: Seq<char>, b: Seq<char>| #[trigger] (a + needle + b) == hay {
        let (a, b) = choose|a: Seq<char>, b: Seq<char>| #[trigger] (a + needle + b) == hay;
        assert(hay.subrange(a.len() as int, (a.len() + needle.len()) as int) == needle);
        assert(occurs_at(needle, hay, a.len() as int));
    }
}

/// A number below ten is written as one digit; ten times a number and a digit
/// more is written as that number and then that digit.
pub proof fn decimals_grow_digit_by_digit(n: u32, s: String, digit: u32, more: u32, t: String)
    requires
        digit < 10,
        more == 10 * n + digit,
        call_ensures(to_decimal, (n,), s),
        call_ensures(to_decimal, (more,), t),
    ensures
        n == 0 ==> t@.len() == 1 && t@[0] as u32 == 48 + digit,
        n > 0 ==> t@.len() == s@.len() + 1,
        n > 0 ==> t@.drop_last() == s@ && t@.last() as u32 == 48 + digit,
{
    assert(more / 10 == n && more % 10 == digit);
    assert(t@ == decimal(more as nat));
    assert(digit == 0 || digit == 1 || digit == 2 || digit == 3 || digit == 4 || digit == 5
        || digit == 6 || digit == 7 || digit == 8 || digit == 9);
}

/// No text is joined from an empty list, one string is joined to itself, and
/// each string more is added after the separator.
pub proof fn joining_puts_the_separator_between(
    list: Vec<String>,
    s: String,
    longer: Vec<String>,
    t: String,
    sep: &str,
)
    requires
        longer@.drop_last() == list@,
        longer@.len() == list@.len() + 1,
        call_ensures(join, (&list, sep), s),
        call_ensures(join, (&longer, sep), t),
    ensures
        list@.len() == 0 ==> s@.len() == 0 && t@ == longer@[0]@,
        list@.len() > 0 ==> t@ == s@ + sep@ + longer@.last()@,
{
    assert(texts(longer@).drop_last() == texts(list@));
    assert(texts(longer@).last() == longer@.last()@);
}

/// The first separator parts a text in two: there is none before it, and both
/// parts with the separator between them are the text.
pub proof fn parts_meet_at_the_first_separator(
    s: &str,
    sep: char,
    parts: Option<(String, String)>,
)
    requires
        call_ensures(split_once, (s, sep), parts),
    ensures
        parts matches Some(p) ==> s@ == p.0@.push(sep) + p.1@ && !p.0@.contains(sep),
        parts is None <==> !s@.contains(sep),
{
    first_index_is_first(s@, sep, 0);
    let i = first_index(s@, sep, 0);
    if i < s@.len() {
        assert(s@ == s@.take(i).push(sep) + s@.skip(i + 1));
        assert(s@.contains(s@[i]));
        if s@.take(i).contains(sep) {
            let k = choose|k: int| 0 <= k < i && s@.take(i)[k] == sep;
            assert(s@[k] == sep);
        }
    }
}

/// The first position is one at which the character stands, and it stands
/// nowhere before it.
proof fn first_index_is_first(s: Seq<char>, c: char, from: int)
    requires
        0 <= from <= s.len(),
    ensures
        from <= first_index(s, c, from) <= s.len(),
        first_index(s, c, from) < s.len() ==> s[first_index(s, c, from)] == c,
        forall|k: int| from <= k < first_index(s, c, from) ==> #[trigger] s[k] != c,
    decreases s.len() - from,
{
    if from < s.len() && s[from] != c {
        first_index_is_first(s, c, from + 1);
    }
}

/// A text without the separator is split into itself alone, and a text made of
/// two with the separator between them is split as the two are.
pub proof fn splitting_cuts_at_each_separator(
    a: &str,
    of_a: Vec<String>,
    b: &str,
    of_b: Vec<String>,
    whole: &str,
    of_whole: Vec<String>,
    sep: char,
)
    requires
        whole@ == a@.push(sep) + b@,
        call_ensures(split, (a, sep), of_a),
        call_ensures(split, (b, sep), of_b),
        call_ensures(split, (whole, sep), of_whole),
    ensures
        !a@.contains(sep) ==> of_a@.len() == 1 && of_a@[0]@ == a@,
        of_whole@.len() == of_a@.len() + of_b@.len(),
        forall|i: int| 0 <= i < of_a@.len() ==> (#[trigger] of_whole@[i])@ == of_a@[i]@,
        forall|i: int|
            0 <= i < of_b@.len() ==> of_whole@[of_a@.len() + i]@ == (#[trigger] of_b@[i])@,
{
    pieces_of_two(a@, sep, b@);
    texts_are_those_of_the_strings(of_a@);
    texts_are_those_of_the_strings(of_b@);
    texts_are_those_of_the_strings(of_whole@);
    if !a@.contains(sep) {
        pieces_of_one(a@, sep);
        assert(texts(of_a@)[0] == of_a@[0]@);
    }
    assert forall|i: int| 0 <= i < of_a@.len() implies (#[trigger] of_whole@[i])@ == of_a@[i]@ by {
        assert(texts(of_whole@)[i] == texts(of_a@)[i]);
    }
    assert forall|i: int| 0 <= i < of_b@.len() implies of_whole@[of_a@.len() + i]@ == (
        #[trigger] of_b@[i])@ by {
        assert(texts(of_whole@)[of_a@.len() + i] == texts(of_b@)[i]);
    }
}

/// A text without the separator has no two parts.
pub proof fn texts_without_a_separator_have_no_halves(s: Seq<char>, sep: char)
    requires
        !s.contains(sep),
    ensures
        halves(s, sep) is None,
{
    first_index_is_first(s, sep, 0);
    let i = first_index(s, sep, 0);
    if i < s.len() {
        assert(s.contains(s[i]));
    }
}

/// Nothing is left of a text exactly where it is nothing but whitespace.
pub proof fn blank_texts_are_whitespace(s: Seq<char>)
    ensures
        trimmed(s).len() == 0 <==> all_whitespace(s),
{
    let start = trimmed_start(s);
    trimming_takes_off_whitespace(s);
    trimming_takes_off_whitespace(start);
    trimming_is_idempotent(s);
    trimmed_texts_have_bare_ends(trimmed(s));
    let a = choose|a: Seq<char>| #[trigger] (a + start) == s && all_whitespace(a);
    let b = choose|b: Seq<char>| #[trigger] (trimmed_end(start) + b) == start && all_whitespace(b);
    assert(a + trimmed(s) + b == s);
    if trimmed(s).len() == 0 {
        assert(s == a + b);
    }
    if all_whitespace(s) && trimmed(s).len() > 0 {
        assert(s[a.len() as int] == trimmed(s)[0]);
    }
}

} // verus!
