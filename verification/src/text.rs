//! Small text utilities shared by the parsers and the command builders:
//! comparing text, decimal numbers, and the extension of a path.

use vstd::prelude::*;
use vstd::string::*;

verus! {

/// Whether two pieces of text hold the same characters.
pub fn same_text(a: &str, b: &str) -> (r: bool)
    ensures
        r == (a@ == b@),
{
    let left: String = a.to_owned();
    let right: String = b.to_owned();
    left == right
}

/// The characters of `s`, in order.
pub fn chars_of(s: &str) -> (v: Vec<char>)
    ensures
        v@ == s@,
{
    let mut v: Vec<char> = Vec::new();
    for c in it: s.chars()
        invariant
            it.seq() == s@,
            v@ == it.seq().take(it.index() as int),
    {
        v.push(c);
    }
    v
}

/// Whether `c` is one of the ten decimal digits.
pub open spec fn is_digit(c: char) -> bool {
    '0' <= c && c <= '9'
}

/// The number a decimal digit stands for.
pub open spec fn digit_value(c: char) -> nat {
    (c as int - '0' as int) as nat
}

/// The decimal digit that stands for `d`, for `d` below ten.
pub open spec fn digit_char(d: nat) -> char {
    ('0' as int + d) as char
}

/// Whether `s` holds decimal digits only.
pub open spec fn all_digits(s: Seq<char>) -> bool {
    forall|i: int| 0 <= i < s.len() ==> is_digit(#[trigger] s[i])
}

/// The number that a run of decimal digits writes, most significant first.
pub open spec fn decimal_value(s: Seq<char>) -> nat
    decreases s.len(),
{
    if s.len() == 0 {
        0
    } else {
        decimal_value(s.drop_last()) * 10 + digit_value(s.last())
    }
}

/// The shortest decimal writing of `n`.
pub open spec fn decimal_text_spec(n: nat) -> Seq<char>
    decreases n,
{
    if n < 10 {
        seq![digit_char(n)]
    } else {
        decimal_text_spec(n / 10).push(digit_char(n % 10))
    }
}

/// An unsigned decimal integer: one or more digits whose value fits in 64 bits.
pub open spec fn parse_u64_spec(s: Seq<char>) -> Option<u64> {
    if s.len() > 0 && all_digits(s) && decimal_value(s) <= u64::MAX {
        Some(decimal_value(s) as u64)
    } else {
        None
    }
}

/// Position of the first `c` in `s`, or the length of `s` where there is none.
pub open spec fn first_index_of(s: Seq<char>, c: char) -> int
    decreases s.len(),
{
    if s.len() == 0 {
        0
    } else if s[0] == c {
        0
    } else {
        1 + first_index_of(s.drop_first(), c)
    }
}

/// Position of the last `c` in `s`, or -1 where there is none.
pub open spec fn last_index_of(s: Seq<char>, c: char) -> int
    decreases s.len(),
{
    if s.len() == 0 {
        -1
    } else if s.last() == c {
        s.len() - 1
    } else {
        last_index_of(s.drop_last(), c)
    }
}

/// Whole seconds of a decimal duration such as `60.024000`: the digits in
/// front of the point, provided what follows the point is digits too.
pub open spec fn parse_seconds_spec(s: Seq<char>) -> Option<u64> {
    let point = first_index_of(s, '.');
    if point == s.len() {
        parse_u64_spec(s)
    } else if all_digits(s.skip(point + 1)) {
        parse_u64_spec(s.take(point))
    } else {
        None
    }
}

/// The final component of a `/`-separated path.
pub open spec fn file_name_spec(path: Seq<char>) -> Seq<char> {
    path.skip(last_index_of(path, '/') + 1)
}

/// The text after the last point of the file name, provided that point is
/// not the first character of the name.
pub open spec fn extension_spec(path: Seq<char>) -> Option<Seq<char>> {
    let name = file_name_spec(path);
    let point = last_index_of(name, '.');
    if point <= 0 {
        None
    } else {
        Some(name.skip(point + 1))
    }
}

/// `first_index_of` stays within `s`, points at a `c` short of the end, and
/// passes over none.
pub proof fn lemma_first_index_of(s: Seq<char>, c: char)
    ensures
        0 <= first_index_of(s, c) <= s.len(),
        first_index_of(s, c) < s.len() ==> s[first_index_of(s, c)] == c,
        forall|i: int| 0 <= i < first_index_of(s, c) ==> s[i] != c,
    decreases s.len(),
{
    if s.len() > 0 && s[0] != c {
        let rest = s.drop_first();
        lemma_first_index_of(rest, c);
        assert forall|i: int| 0 <= i < first_index_of(s, c) implies s[i] != c by {
            if i > 0 {
                assert(s[i] == rest[i - 1]);
            }
        }
    }
}

/// `last_index_of` stays within `s`, points at a `c` where it is not -1,
/// and has none behind it.
pub proof fn lemma_last_index_of(s: Seq<char>, c: char)
    ensures
        -1 <= last_index_of(s, c) < s.len(),
        last_index_of(s, c) >= 0 ==> s[last_index_of(s, c)] == c,
        forall|i: int| last_index_of(s, c) < i < s.len() ==> s[i] != c,
    decreases s.len(),
{
    if s.len() > 0 && s.last() != c {
        let front = s.drop_last();
        lemma_last_index_of(front, c);
        assert forall|i: int| last_index_of(s, c) < i < s.len() implies s[i] != c by {
            if i < s.len() - 1 {
                assert(s[i] == front[i]);
            }
        }
    }
}

/// A position that holds `c` with no `c` before it is the first index of `c`.
pub proof fn lemma_first_index_unique(s: Seq<char>, c: char, k: int)
    requires
        0 <= k <= s.len(),
        k < s.len() ==> s[k] == c,
        forall|i: int| 0 <= i < k ==> s[i] != c,
    ensures
        first_index_of(s, c) == k,
{
    lemma_first_index_of(s, c);
    let f = first_index_of(s, c);
    if f < k {
        assert(s[f] != c);
    }
}

/// A position that holds `c` with no `c` after it is the last index of `c`.
pub proof fn lemma_last_index_unique(s: Seq<char>, c: char, k: int)
    requires
        -1 <= k < s.len(),
        k >= 0 ==> s[k] == c,
        forall|i: int| k < i < s.len() ==> s[i] != c,
    ensures
        last_index_of(s, c) == k,
{
    lemma_last_index_of(s, c);
    let l = last_index_of(s, c);
    if l > k {
        assert(s[l] != c);
    }
}

/// Reading more digits never lowers the value.
pub proof fn lemma_decimal_value_grows(s: Seq<char>, k: int)
    requires
        0 <= k <= s.len(),
    ensures
        decimal_value(s.take(k)) <= decimal_value(s),
    decreases s.len() - k,
{
    if k == s.len() {
        assert(s.take(k) == s);
    } else {
        lemma_decimal_value_grows(s, k + 1);
        let longer = s.take(k + 1);
        assert(longer.drop_last() == s.take(k));
        assert(decimal_value(longer) == decimal_value(s.take(k)) * 10 + digit_value(longer.last()));
    }
}

/// Reads the digits `chars[from..to]` as an unsigned decimal integer.
pub(crate) fn parse_digits(chars: &Vec<char>, from: usize, to: usize) -> (r: Option<u64>)
    requires
        from <= to <= chars.len(),
    ensures
        r == parse_u64_spec(chars@.subrange(from as int, to as int)),
{
    let ghost s = chars@.subrange(from as int, to as int);
    if from == to {
        return None;
    }
    let mut acc: u64 = 0;
    let mut i: usize = from;
    assert(s.take(0) == Seq::<char>::empty());
    while i < to
        invariant
            from <= i <= to <= chars.len(),
            s == chars@.subrange(from as int, to as int),
            all_digits(s.take(i - from)),
            acc == decimal_value(s.take(i - from)),
        decreases to - i,
    {
        let c: char = chars[i];
        assert(s[i - from] == c);
        if !(c >= '0' && c <= '9') {
            assert(!is_digit(s[i - from]));
            return None;
        }
        let d: u64 = (c as u32 - '0' as u32) as u64;
        let ghost longer = s.take(i - from + 1);
        proof {
            assert(longer.drop_last() == s.take(i - from));
            assert(longer.last() == c);
            assert(decimal_value(longer) == acc * 10 + digit_value(c));
            assert forall|j: int| 0 <= j < longer.len() implies is_digit(#[trigger] longer[j]) by {
                if j < i - from {
                    assert(longer[j] == s.take(i - from)[j]);
                }
            }
            lemma_decimal_value_grows(s, i - from + 1);
        }
        if acc > (u64::MAX - d) / 10 {
            return None;
        }
        acc = acc * 10 + d;
        i += 1;
    }
    assert(s.take(to - from) == s);
    Some(acc)
}

/// Reads text as an unsigned decimal integer.
pub fn parse_u64(text: &str) -> (r: Option<u64>)
    ensures
        r == parse_u64_spec(text@),
{
    let chars = chars_of(text);
    assert(chars@.subrange(0, chars@.len() as int) == chars@);
    parse_digits(&chars, 0, chars.len())
}

/// Reads the whole seconds of a decimal duration.
pub fn parse_seconds(text: &str) -> (r: Option<u64>)
    ensures
        r == parse_seconds_spec(text@),
{
    let chars = chars_of(text);
    let n: usize = chars.len();
    let mut point: usize = 0;
    while point < n && chars[point] != '.'
        invariant
            n == chars.len(),
            point <= n,
            forall|i: int| 0 <= i < point ==> chars@[i] != '.',
        decreases n - point,
    {
        point += 1;
    }
    proof {
        lemma_first_index_unique(chars@, '.', point as int);
    }
    if point == n {
        assert(chars@.subrange(0, n as int) == chars@);
        return parse_digits(&chars, 0, n);
    }
    let ghost tail = chars@.skip(point as int + 1);
    let mut j: usize = point + 1;
    while j < n
        invariant
            n == chars.len(),
            point < j <= n,
            chars@ == text@,
            first_index_of(chars@, '.') == point,
            tail == chars@.skip(point as int + 1),
            forall|i: int| 0 <= i < j - point - 1 ==> is_digit(#[trigger] tail[i]),
        decreases n - j,
    {
        let c: char = chars[j];
        assert(tail[j - point - 1] == c);
        if !(c >= '0' && c <= '9') {
            assert(!is_digit(tail[j - point - 1]));
            return None;
        }
        j += 1;
    }
    assert(chars@.subrange(0, point as int) == chars@.take(point as int));
    parse_digits(&chars, 0, point)
}

/// The extension of a path, as `extension_spec` defines it.
pub fn extension(path: &str) -> (r: Option<&str>)
    ensures
        match r {
            Some(ext) => extension_spec(path@) == Some(ext@),
            None => extension_spec(path@) is None,
        },
{
    let chars = chars_of(path);
    let n: usize = chars.len();
    // `start` is where the file name begins.
    let mut start: usize = n;
    while start > 0 && chars[start - 1] != '/'
        invariant
            n == chars.len(),
            start <= n,
            forall|i: int| start <= i < n ==> chars@[i] != '/',
        decreases start,
    {
        start -= 1;
    }
    proof {
        lemma_last_index_unique(chars@, '/', start as int - 1);
    }
    let ghost name = chars@.skip(start as int);
    // `after` is one past the last point of the file name.
    let mut after: usize = n;
    while after > start && chars[after - 1] != '.'
        invariant
            n == chars.len(),
            start <= after <= n,
            name == chars@.skip(start as int),
            forall|i: int| after - start <= i < name.len() ==> name[i] != '.',
        decreases after,
    {
        assert(name[after - 1 - start] == chars@[after - 1]);
        after -= 1;
    }
    proof {
        if after > start {
            assert(name[after - 1 - start] == chars@[after - 1]);
        }
        lemma_last_index_unique(name, '.', after as int - start as int - 1);
    }
    if after - start <= 1 {
        return None;
    }
    assert(name.skip(after - start) == path@.subrange(after as int, n as int));
    Some(path.substring_char(after, n))
}

/// One decimal digit as text.
fn digit_text(d: u64) -> (r: &'static str)
    requires
        d < 10,
    ensures
        r@ == seq![digit_char(d as nat)],
{
    proof {
        reveal_strlit("0");
        reveal_strlit("1");
        reveal_strlit("2");
        reveal_strlit("3");
        reveal_strlit("4");
        reveal_strlit("5");
        reveal_strlit("6");
        reveal_strlit("7");
        reveal_strlit("8");
        reveal_strlit("9");
    }
    let r: &'static str = if d == 0 {
        "0"
    } else if d == 1 {
        "1"
    } else if d == 2 {
        "2"
    } else if d == 3 {
        "3"
    } else if d == 4 {
        "4"
    } else if d == 5 {
        "5"
    } else if d == 6 {
        "6"
    } else if d == 7 {
        "7"
    } else if d == 8 {
        "8"
    } else {
        "9"
    };
    assert(r@ =~= seq![digit_char(d as nat)]);
    r
}

/// Writes `n` in decimal.
pub fn decimal_text(n: u64) -> (r: String)
    ensures
        r@ == decimal_text_spec(n as nat),
    decreases n,
{
    if n < 10 {
        digit_text(n).to_owned()
    } else {
        let front: String = decimal_text(n / 10);
        let r = front.concat(digit_text(n % 10));
        assert(r@ =~= decimal_text_spec(n as nat));
        r
    }
}

/// The characters of each piece of text in a list.
pub open spec fn texts(list: Seq<String>) -> Seq<Seq<char>> {
    Seq::new(list.len(), |i: int| list[i]@)
}

/// Appends a copy of `piece` to `list`.
pub fn push_text(list: &mut Vec<String>, piece: &str)
    ensures
        texts(final(list)@) == texts(old(list)@).push(piece@),
{
    list.push(piece.to_owned());
    assert(texts(list@) =~= texts(old(list)@).push(piece@));
}

/// The decimal writing of an integer, with a minus sign where it is negative.
pub open spec fn signed_text_spec(n: int) -> Seq<char> {
    if n < 0 {
        seq!['-'] + decimal_text_spec((-n) as nat)
    } else {
        decimal_text_spec(n as nat)
    }
}

/// A signed decimal integer of 32 bits: an optional `+` or `-`, then one or
/// more digits.
pub open spec fn parse_i32_spec(s: Seq<char>) -> Option<i32> {
    let signed = s.len() > 0 && (s[0] == '-' || s[0] == '+');
    let negative = s.len() > 0 && s[0] == '-';
    let digits = if signed {
        s.skip(1)
    } else {
        s
    };
    if digits.len() == 0 || !all_digits(digits) {
        None
    } else if negative {
        if decimal_value(digits) <= 0x8000_0000 {
            Some((-(decimal_value(digits) as int)) as i32)
        } else {
            None
        }
    } else {
        if decimal_value(digits) <= 0x7fff_ffff {
            Some(decimal_value(digits) as i32)
        } else {
            None
        }
    }
}

/// What is left of `s` once `prefix` is taken off its front, where `s`
/// starts with it.
pub open spec fn strip_prefix_spec(s: Seq<char>, prefix: Seq<char>) -> Option<Seq<char>> {
    if prefix.is_prefix_of(s) {
        Some(s.skip(prefix.len() as int))
    } else {
        None
    }
}

/// Position of the first occurrence of `pattern` in `s`, or the length of
/// `s` where there is none.
pub open spec fn find_spec(s: Seq<char>, pattern: Seq<char>) -> int
    decreases s.len(),
{
    if pattern.is_prefix_of(s) || s.len() == 0 {
        0
    } else {
        1 + find_spec(s.drop_first(), pattern)
    }
}

/// `find_spec` stays within `s`, and short of the end it points at an
/// occurrence of `pattern`.
pub proof fn lemma_find_bounds(s: Seq<char>, pattern: Seq<char>)
    ensures
        0 <= find_spec(s, pattern) <= s.len(),
        find_spec(s, pattern) < s.len() ==> pattern.is_prefix_of(s.skip(find_spec(s, pattern))),
    decreases s.len(),
{
    if pattern.is_prefix_of(s) || s.len() == 0 {
        assert(s.skip(0) == s);
    } else {
        let rest = s.drop_first();
        lemma_find_bounds(rest, pattern);
        assert(rest.skip(find_spec(rest, pattern)) == s.skip(find_spec(s, pattern)));
    }
}

/// Where `pattern` stands at position `k` of `s` and nothing before `k`
/// even starts like it, `k` is where `find_spec` finds it.
pub proof fn lemma_find_first_occurrence(s: Seq<char>, pattern: Seq<char>, k: int)
    requires
        pattern.len() > 0,
        0 <= k <= s.len(),
        pattern.is_prefix_of(s.skip(k)),
        forall|i: int| 0 <= i < k ==> s[i] != pattern[0],
    ensures
        find_spec(s, pattern) == k,
    decreases k,
{
    if k == 0 {
        assert(s.skip(0) == s);
    } else {
        assert(s[0] != pattern[0]);
        if pattern.is_prefix_of(s) {
            assert(s.subrange(0, pattern.len() as int)[0] == pattern[0]);
        }
        let rest = s.drop_first();
        assert(rest.skip(k - 1) == s.skip(k));
        assert forall|i: int| 0 <= i < k - 1 implies rest[i] != pattern[0] by {
            assert(rest[i] == s[i + 1]);
        }
        lemma_find_first_occurrence(rest, pattern, k - 1);
    }
}

/// Writes `n` in decimal, with a minus sign where it is negative.
pub fn signed_decimal_text(n: i64) -> (r: String)
    ensures
        r@ == signed_text_spec(n as int),
{
    if n < 0 {
        let magnitude: u64 = if n == i64::MIN {
            0x8000_0000_0000_0000
        } else {
            (-n) as u64
        };
        proof {
            reveal_strlit("-");
        }
        let digits = decimal_text(magnitude);
        let r = "-".to_owned().concat(digits.as_str());
        assert(r@ =~= signed_text_spec(n as int));
        r
    } else {
        decimal_text(n as u64)
    }
}

/// Whether `chars[from..to]` starts with `pattern`.
pub(crate) fn matches_at(chars: &Vec<char>, from: usize, to: usize, pattern: &Vec<char>) -> (r:
    bool)
    requires
        from <= to <= chars.len(),
    ensures
        r == pattern@.is_prefix_of(chars@.subrange(from as int, to as int)),
{
    let ghost s = chars@.subrange(from as int, to as int);
    if pattern.len() > to - from {
        return false;
    }
    let mut i: usize = 0;
    while i < pattern.len()
        invariant
            from <= to <= chars.len(),
            pattern.len() <= to - from,
            i <= pattern.len(),
            s == chars@.subrange(from as int, to as int),
            forall|j: int| 0 <= j < i ==> pattern@[j] == s[j],
        decreases pattern.len() - i,
    {
        if pattern[i] != chars[from + i] {
            assert(s[i as int] == chars@[from + i]);
            assert(s.subrange(0, pattern@.len() as int)[i as int] != pattern@[i as int]);
            return false;
        }
        assert(s[i as int] == chars@[from + i]);
        i += 1;
    }
    assert(pattern@ =~= s.subrange(0, pattern@.len() as int));
    true
}

/// Finds the first occurrence of `pattern` in `chars[from..to]`; the result
/// is `to` where there is none.
pub(crate) fn find(chars: &Vec<char>, from: usize, to: usize, pattern: &Vec<char>) -> (r: usize)
    requires
        from <= to <= chars.len(),
    ensures
        from <= r <= to,
        r - from == find_spec(chars@.subrange(from as int, to as int), pattern@),
{
    let mut i: usize = from;
    while i < to
        invariant
            from <= i <= to <= chars.len(),
            find_spec(chars@.subrange(from as int, to as int), pattern@) == i - from + find_spec(
                chars@.subrange(i as int, to as int),
                pattern@,
            ),
        decreases to - i,
    {
        if matches_at(chars, i, to, pattern) {
            return i;
        }
        assert(chars@.subrange(i as int, to as int).drop_first() == chars@.subrange(
            i as int + 1,
            to as int,
        ));
        i += 1;
    }
    assert(chars@.subrange(to as int, to as int).len() == 0);
    to
}

/// Reads `chars[from..to]` as a signed decimal integer of 32 bits.
pub(crate) fn parse_i32_range(chars: &Vec<char>, from: usize, to: usize) -> (r: Option<i32>)
    requires
        from <= to <= chars.len(),
    ensures
        r == parse_i32_spec(chars@.subrange(from as int, to as int)),
{
    let ghost s = chars@.subrange(from as int, to as int);
    if from == to {
        return None;
    }
    assert(s[0] == chars@[from as int]);
    let first: char = chars[from];
    let negative: bool = first == '-';
    let signed: bool = negative || first == '+';
    let start: usize = if signed {
        from + 1
    } else {
        from
    };
    assert(chars@.subrange(start as int, to as int) == if signed {
        s.skip(1)
    } else {
        s
    });
    match parse_digits(chars, start, to) {
        None => None,
        Some(value) => {
            if negative {
                if value <= 0x8000_0000 {
                    Some((-(value as i64)) as i32)
                } else {
                    None
                }
            } else {
                if value <= 0x7fff_ffff {
                    Some(value as i32)
                } else {
                    None
                }
            }
        },
    }
}

/// Reads text as a signed decimal integer of 32 bits.
pub fn parse_i32(text: &str) -> (r: Option<i32>)
    ensures
        r == parse_i32_spec(text@),
{
    let chars = chars_of(text);
    assert(chars@.subrange(0, chars@.len() as int) == chars@);
    parse_i32_range(&chars, 0, chars.len())
}

/// What `decimal_text_spec` writes is a run of digits that reads back as
/// the number written.
pub proof fn lemma_decimal_text_reads_back(n: nat)
    ensures
        decimal_text_spec(n).len() > 0,
        all_digits(decimal_text_spec(n)),
        decimal_value(decimal_text_spec(n)) == n,
    decreases n,
{
    let text = decimal_text_spec(n);
    if n < 10 {
        assert(text.drop_last() == Seq::<char>::empty());
        assert(decimal_value(text.drop_last()) == 0);
        assert(text.last() == digit_char(n));
    } else {
        lemma_decimal_text_reads_back(n / 10);
        let front = decimal_text_spec(n / 10);
        assert(text.drop_last() == front);
        assert(text.last() == digit_char(n % 10));
        assert forall|i: int| 0 <= i < text.len() implies is_digit(#[trigger] text[i]) by {
            if i < front.len() {
                assert(text[i] == front[i]);
            }
        }
    }
}

/// Every unsigned number of 64 bits reads back from its decimal writing.
pub proof fn lemma_parse_u64_of_decimal_text(n: u64)
    ensures
        parse_u64_spec(decimal_text_spec(n as nat)) == Some(n),
{
    lemma_decimal_text_reads_back(n as nat);
}

/// Every signed number of 32 bits reads back from its decimal writing.
pub proof fn lemma_parse_i32_of_signed_text(n: i32)
    ensures
        parse_i32_spec(signed_text_spec(n as int)) == Some(n),
{
    let text = signed_text_spec(n as int);
    if n < 0 {
        let digits = decimal_text_spec((-n) as nat);
        lemma_decimal_text_reads_back((-n) as nat);
        assert(text[0] == '-');
        assert(text.skip(1) == digits);
    } else {
        lemma_decimal_text_reads_back(n as nat);
        assert(is_digit(text[0]));
    }
}

} // verus!
