//! Text helpers shared by the other modules: whitespace trimming, decimal
//! formatting and parsing, case-insensitive suffixes and path joining, each
//! specified over `Seq<char>`.

use vstd::prelude::*;

verus! {

/// Whether `c` carries the Unicode property `White_Space`.
pub open spec fn is_space(c: char) -> bool {
    let n = c as int;
    ||| 0x09 <= n <= 0x0d
    ||| n == 0x20
    ||| n == 0x85
    ||| n == 0xa0
    ||| n == 0x1680
    ||| 0x2000 <= n <= 0x200a
    ||| n == 0x2028
    ||| n == 0x2029
    ||| n == 0x202f
    ||| n == 0x205f
    ||| n == 0x3000
}

/// `s` without its leading whitespace.
pub open spec fn trim_front(s: Seq<char>) -> Seq<char>
    decreases s.len(),
{
    if s.len() > 0 && is_space(s.first()) {
        trim_front(s.drop_first())
    } else {
        s
    }
}

/// `s` without its trailing whitespace.
pub open spec fn trim_back(s: Seq<char>) -> Seq<char>
    decreases s.len(),
{
    if s.len() > 0 && is_space(s.last()) {
        trim_back(s.drop_last())
    } else {
        s
    }
}

/// `s` without leading and trailing whitespace.
pub open spec fn trimmed(s: Seq<char>) -> Seq<char> {
    trim_back(trim_front(s))
}

/// The ASCII lower-case form of `c`; characters outside `A..=Z` are kept.
pub open spec fn ascii_lower(c: char) -> char {
    if 'A' <= c <= 'Z' {
        ((c as int) + 32) as char
    } else {
        c
    }
}

/// `s` with every ASCII upper-case letter replaced by its lower-case form.
pub open spec fn lowered(s: Seq<char>) -> Seq<char> {
    s.map_values(|c: char| ascii_lower(c))
}

/// Whether `s` ends with `suffix` when ASCII case is ignored in `s`.
/// `suffix` is expected in lower case.
pub open spec fn ends_with_ignoring_case(s: Seq<char>, suffix: Seq<char>) -> bool {
    &&& suffix.len() <= s.len()
    &&& lowered(s.subrange(s.len() - suffix.len(), s.len() as int)) == suffix
}

/// The position of the first `c` in `s`, or the length of `s` when it has
/// none.
pub open spec fn find(s: Seq<char>, c: char) -> nat
    decreases s.len(),
{
    if s.len() == 0 || s.first() == c {
        0
    } else {
        1 + find(s.drop_first(), c)
    }
}

/// The position just past the last `'.'` of `s`, or 0 when `s` has none.
pub open spec fn after_last_dot(s: Seq<char>) -> int
    decreases s.len(),
{
    if s.len() == 0 {
        0
    } else if s.last() == '.' {
        s.len() as int
    } else {
        after_last_dot(s.drop_last())
    }
}

/// What follows the last `'.'` of `s`; all of `s` when it has no `'.'`.
pub open spec fn extension(s: Seq<char>) -> Seq<char> {
    s.subrange(after_last_dot(s), s.len() as int)
}

/// The character of the decimal digit `d`, for `0 <= d < 10`.
pub open spec fn digit(d: int) -> char {
    (('0' as int) + d) as char
}

/// The decimal numeral of `n`, without leading zeros.
pub open spec fn decimal(n: nat) -> Seq<char>
    decreases n,
{
    if n < 10 {
        seq![digit(n as int)]
    } else {
        decimal(n / 10).push(digit((n % 10) as int))
    }
}

/// The decimal numeral of `n`, filled with zeros on the left up to `width`
/// characters.
pub open spec fn zero_padded(n: nat, width: nat) -> Seq<char> {
    let d = decimal(n);
    if d.len() >= width {
        d
    } else {
        Seq::new((width - d.len()) as nat, |i: int| '0') + d
    }
}

/// Whether `a` comes before `b` in lexicographic order, the order in which
/// strings sort.
pub open spec fn lex_less(a: Seq<char>, b: Seq<char>) -> bool
    decreases a.len(),
{
    if b.len() == 0 {
        false
    } else if a.len() == 0 {
        true
    } else if a.first() != b.first() {
        a.first() < b.first()
    } else {
        lex_less(a.drop_first(), b.drop_first())
    }
}

/// Whether every character of `s` is a decimal digit.
pub open spec fn all_digits(s: Seq<char>) -> bool {
    forall|i: int| 0 <= i < s.len() ==> '0' <= #[trigger] s[i] <= '9'
}

/// The number that the digit string `s` denotes; leading zeros are allowed
/// and the empty string denotes 0.
pub open spec fn digits_value(s: Seq<char>) -> nat
    decreases s.len(),
{
    if s.len() == 0 {
        0
    } else {
        (digits_value(s.drop_last()) * 10 + ((s.last() as int) - ('0' as int))) as nat
    }
}

/// The number that `s` denotes as an unsigned decimal numeral: an optional
/// `'+'` followed by at least one digit. `None` for any other text.
pub open spec fn unsigned_value(s: Seq<char>) -> Option<nat> {
    let body = if s.len() > 0 && s.first() == '+' {
        s.drop_first()
    } else {
        s
    };
    if body.len() > 0 && all_digits(body) {
        Some(digits_value(body))
    } else {
        None
    }
}

/// `dir` and `name` as one path: a `'/'` is put between them unless `dir` is
/// empty or already ends with one.
pub open spec fn joined(dir: Seq<char>, name: Seq<char>) -> Seq<char> {
    if dir.len() == 0 || dir.last() == '/' {
        dir + name
    } else {
        dir + seq!['/'] + name
    }
}

/// Copies the characters of `s` into a vector, so that they can be indexed in
/// constant time.
pub fn to_chars(s: &str) -> (out: Vec<char>)
    ensures
        out@ == s@,
{
    let mut out: Vec<char> = Vec::new();
    for c in it: s.chars()
        invariant
            out@ == it.seq().take(it.index() as int),
            it.seq() == s@,
    {
        out.push(c);
    }
    out
}

/// Tests a character for the Unicode property `White_Space`.
pub fn is_whitespace(c: char) -> (b: bool)
    ensures
        b == is_space(c),
{
    let n: u32 = c as u32;
    (0x09 <= n && n <= 0x0d) || n == 0x20 || n == 0x85 || n == 0xa0 || n == 0x1680 || (0x2000 <= n
        && n <= 0x200a) || n == 0x2028 || n == 0x2029 || n == 0x202f || n == 0x205f || n == 0x3000
}

proof fn lemma_trim_front_skip(s: Seq<char>, a: int)
    requires
        0 <= a <= s.len(),
        forall|i: int| 0 <= i < a ==> is_space(#[trigger] s[i]),
    ensures
        trim_front(s) == trim_front(s.subrange(a, s.len() as int)),
    decreases a,
{
    if a == 0 {
        assert(s.subrange(0, s.len() as int) =~= s);
    } else {
        assert(is_space(s[0]));
        let rest = s.drop_first();
        assert forall|i: int| 0 <= i < a - 1 implies is_space(#[trigger] rest[i]) by {
            assert(rest[i] == s[i + 1]);
        }
        lemma_trim_front_skip(rest, a - 1);
        assert(rest.subrange(a - 1, rest.len() as int) =~= s.subrange(a, s.len() as int));
    }
}

proof fn lemma_trim_back_skip(s: Seq<char>, b: int)
    requires
        0 <= b <= s.len(),
        forall|i: int| b <= i < s.len() ==> is_space(#[trigger] s[i]),
    ensures
        trim_back(s) == trim_back(s.subrange(0, b)),
    decreases s.len() - b,
{
    if b == s.len() {
        assert(s.subrange(0, b) =~= s);
    } else {
        assert(is_space(s[s.len() - 1]));
        let rest = s.drop_last();
        assert forall|i: int| b <= i < rest.len() implies is_space(#[trigger] rest[i]) by {
            assert(rest[i] == s[i]);
        }
        lemma_trim_back_skip(rest, b);
        assert(rest.subrange(0, b) =~= s.subrange(0, b));
    }
}

/// Where the trimmed part of `chars[from..to]` begins and ends.
pub fn trim_bounds(chars: &Vec<char>, from: usize, to: usize) -> (r: (usize, usize))
    requires
        from <= to <= chars.len(),
    ensures
        from <= r.0 <= r.1 <= to,
        trimmed(chars@.subrange(from as int, to as int)) == chars@.subrange(r.0 as int, r.1 as int),
{
    let ghost s = chars@.subrange(from as int, to as int);
    let mut a: usize = from;
    while a < to && is_whitespace(chars[a])
        invariant
            from <= a <= to <= chars.len(),
            forall|i: int| from <= i < a ==> is_space(#[trigger] chars@[i]),
        decreases to - a,
    {
        a += 1;
    }
    let mut b: usize = to;
    while b > a && is_whitespace(chars[b - 1])
        invariant
            a <= b <= to <= chars.len(),
            forall|i: int| b <= i < to ==> is_space(#[trigger] chars@[i]),
        decreases b,
    {
        b -= 1;
    }
    proof {
        assert forall|i: int| 0 <= i < a - from implies is_space(#[trigger] s[i]) by {
            assert(s[i] == chars@[i + from]);
        }
        let front = s.subrange(a - from, s.len() as int);
        lemma_trim_front_skip(s, a - from);
        assert(trim_front(s) == front) by {
            if a < to {
                assert(front.first() == chars@[a as int]);
            }
        }
        assert forall|i: int| b - a <= i < front.len() implies is_space(#[trigger] front[i]) by {
            assert(front[i] == chars@[i + a]);
        }
        lemma_trim_back_skip(front, b - a);
        let kept = front.subrange(0, b - a);
        assert(kept =~= chars@.subrange(a as int, b as int));
        assert(trim_back(kept) == kept) by {
            if a < b {
                assert(kept.last() == chars@[b - 1]);
            }
        }
    }
    (a, b)
}

/// `s` without leading and trailing whitespace.
pub fn trim(s: &str) -> (out: String)
    ensures
        out@ == trimmed(s@),
{
    let chars = to_chars(s);
    let (a, b) = trim_bounds(&chars, 0, chars.len());
    assert(chars@.subrange(0, chars.len() as int) =~= chars@);
    String::from_str(s.substring_char(a, b))
}

/// Whether `c`, put in ASCII lower case, is `lower`.
fn lowers_to(c: char, lower: char) -> (b: bool)
    ensures
        b == (ascii_lower(c) == lower),
{
    if 'A' <= c && c <= 'Z' {
        c as u32 + 32 == lower as u32
    } else {
        c == lower
    }
}

/// Whether `chars` ends with `suffix` when ASCII case is ignored in `chars`.
pub fn has_suffix_ignoring_case(chars: &Vec<char>, suffix: &str) -> (b: bool)
    ensures
        b == ends_with_ignoring_case(chars@, suffix@),
{
    let tail = to_chars(suffix);
    let n = chars.len();
    let m = tail.len();
    if m > n {
        return false;
    }
    let ghost window = chars@.subrange(n - m, n as int);
    let mut i: usize = 0;
    while i < m
        invariant
            i <= m <= n,
            n == chars.len(),
            m == tail.len(),
            tail@ == suffix@,
            window == chars@.subrange(n - m, n as int),
            forall|j: int| 0 <= j < i ==> ascii_lower(#[trigger] window[j]) == tail@[j],
        decreases m - i,
    {
        assert(window[i as int] == chars@[n - m + i]);
        if !lowers_to(chars[n - m + i], tail[i]) {
            assert(lowered(window)[i as int] != suffix@[i as int]);
            return false;
        }
        i += 1;
    }
    assert(lowered(window) =~= suffix@);
    true
}

proof fn lemma_find_skip(s: Seq<char>, c: char, k: int)
    requires
        0 <= k <= s.len(),
        forall|i: int| 0 <= i < k ==> #[trigger] s[i] != c,
    ensures
        find(s, c) == k + find(s.subrange(k, s.len() as int), c),
    decreases k,
{
    if k == 0 {
        assert(s.subrange(0, s.len() as int) =~= s);
    } else {
        assert(s[0] != c);
        let rest = s.drop_first();
        assert forall|i: int| 0 <= i < k - 1 implies #[trigger] rest[i] != c by {
            assert(rest[i] == s[i + 1]);
        }
        lemma_find_skip(rest, c, k - 1);
        assert(rest.subrange(k - 1, rest.len() as int) =~= s.subrange(k, s.len() as int));
    }
}

/// The position of the first `c` in `chars[from..to]`, or `to` when there is
/// none.
pub fn find_char(chars: &Vec<char>, from: usize, to: usize, c: char) -> (at: usize)
    requires
        from <= to <= chars.len(),
    ensures
        from <= at <= to,
        at - from == find(chars@.subrange(from as int, to as int), c),
{
    let ghost s = chars@.subrange(from as int, to as int);
    let mut at: usize = from;
    while at < to && chars[at] != c
        invariant
            from <= at <= to <= chars.len(),
            forall|i: int| from <= i < at ==> #[trigger] chars@[i] != c,
        decreases to - at,
    {
        at += 1;
    }
    proof {
        assert forall|i: int| 0 <= i < at - from implies #[trigger] s[i] != c by {
            assert(s[i] == chars@[i + from]);
        }
        lemma_find_skip(s, c, at - from);
        let rest = s.subrange(at - from, s.len() as int);
        if at < to {
            assert(rest.first() == chars@[at as int]);
        }
        assert(find(rest, c) == 0);
    }
    at
}

/// Whether `chars[from..to]` begins with `key`.
pub fn has_prefix_at(chars: &Vec<char>, from: usize, to: usize, key: &Vec<char>) -> (b: bool)
    requires
        from <= to <= chars.len(),
    ensures
        b == key@.is_prefix_of(chars@.subrange(from as int, to as int)),
{
    let m = key.len();
    if m > to - from {
        return false;
    }
    let ghost s = chars@.subrange(from as int, to as int);
    let mut i: usize = 0;
    while i < m
        invariant
            i <= m <= to - from,
            from <= to <= chars.len(),
            m == key.len(),
            s == chars@.subrange(from as int, to as int),
            forall|j: int| 0 <= j < i ==> #[trigger] key@[j] == s[j],
        decreases m - i,
    {
        assert(s[i as int] == chars@[from + i]);
        if chars[from + i] != key[i] {
            assert(s.subrange(0, m as int)[i as int] != key@[i as int]);
            return false;
        }
        i += 1;
    }
    assert(key@ =~= s.subrange(0, m as int));
    true
}

proof fn lemma_after_last_dot_skip(s: Seq<char>, k: int)
    requires
        0 <= k <= s.len(),
        forall|i: int| k <= i < s.len() ==> #[trigger] s[i] != '.',
    ensures
        after_last_dot(s) == after_last_dot(s.subrange(0, k)),
    decreases s.len() - k,
{
    if k == s.len() {
        assert(s.subrange(0, k) =~= s);
    } else {
        assert(s[s.len() - 1] != '.');
        let rest = s.drop_last();
        assert forall|i: int| k <= i < rest.len() implies #[trigger] rest[i] != '.' by {
            assert(rest[i] == s[i]);
        }
        lemma_after_last_dot_skip(rest, k);
        assert(rest.subrange(0, k) =~= s.subrange(0, k));
    }
}

/// What follows the last `'.'` of `name`; all of `name` when it has no `'.'`.
pub fn extension_of(name: &str) -> (ext: String)
    ensures
        ext@ == extension(name@),
{
    let chars = to_chars(name);
    let n = chars.len();
    let mut k: usize = n;
    while k > 0 && chars[k - 1] != '.'
        invariant
            k <= n,
            n == chars.len(),
            forall|i: int| k <= i < n ==> #[trigger] chars@[i] != '.',
        decreases k,
    {
        k -= 1;
    }
    proof {
        lemma_after_last_dot_skip(chars@, k as int);
        let head = chars@.subrange(0, k as int);
        if k > 0 {
            assert(head.last() == chars@[k - 1]);
        }
        assert(after_last_dot(head) == k);
    }
    String::from_str(name.substring_char(k, n))
}

/// The one-character string of the decimal digit `d`.
fn digit_str(d: u8) -> (s: &'static str)
    requires
        d < 10,
    ensures
        s@ == seq![digit(d as int)],
{
    proof {
        reveal_strlit("0");
        reveal_strlit("1");
        reveal_strlit("2");
        reveal_strlit("3");
        reveal_strlit("4");
        reveal_strlit("5");
        reveal_strlit("6");
        reveal_strlit("7");
        reveal_strlit("8");
        reveal_strlit("9");
    }
    let s = match d {
        0 => "0",
        1 => "1",
        2 => "2",
        3 => "3",
        4 => "4",
        5 => "5",
        6 => "6",
        7 => "7",
        8 => "8",
        _ => "9",
    };
    assert(s@ =~= seq![digit(d as int)]);
    s
}

/// The decimal numeral of `n`, without leading zeros.
pub fn format_decimal(n: u128) -> (s: String)
    ensures
        s@ == decimal(n as nat),
    decreases n,
{
    if n < 10 {
        String::from_str(digit_str(n as u8))
    } else {
        let mut s = format_decimal(n / 10);
        s.append(digit_str((n % 10) as u8));
        s
    }
}

/// The decimal numeral of `n`, filled with zeros on the left up to `width`
/// characters.
pub fn format_zero_padded(n: u128, width: usize) -> (s: String)
    ensures
        s@ == zero_padded(n as nat, width as nat),
{
    let numeral = format_decimal(n);
    let len = numeral.as_str().unicode_len();
    if len >= width {
        return numeral;
    }
    proof {
        reveal_strlit("0");
    }
    let fill = width - len;
    let mut out = String::new();
    let mut k: usize = 0;
    while k < fill
        invariant
            k <= fill,
            "0"@ == seq!['0'],
            out@ == Seq::new(k as nat, |i: int| '0'),
        decreases fill - k,
    {
        out.append("0");
        k += 1;
        assert(out@ =~= Seq::new(k as nat, |i: int| '0'));
    }
    out.append(numeral.as_str());
    out
}

/// Two strings with a common beginning compare as what follows it.
pub proof fn lemma_lex_less_after_prefix(prefix: Seq<char>, a: Seq<char>, b: Seq<char>)
    ensures
        lex_less(prefix + a, prefix + b) == lex_less(a, b),
    decreases prefix.len(),
{
    if prefix.len() == 0 {
        assert(prefix + a =~= a);
        assert(prefix + b =~= b);
    } else {
        let rest = prefix.drop_first();
        assert((prefix + a).drop_first() =~= rest + a);
        assert((prefix + b).drop_first() =~= rest + b);
        assert((prefix + a).first() == (prefix + b).first());
        lemma_lex_less_after_prefix(rest, a, b);
    }
}

/// Two strings that agree up to a position at which the first has the
/// smaller character compare as those characters do.
pub proof fn lemma_lex_less_at(a: Seq<char>, b: Seq<char>, k: int)
    requires
        0 <= k < a.len(),
        k < b.len(),
        forall|j: int| 0 <= j < k ==> a[j] == b[j],
        a[k] < b[k],
    ensures
        lex_less(a, b),
    decreases k,
{
    if k > 0 {
        let x = a.drop_first();
        let y = b.drop_first();
        assert(a[0] == b[0]);
        assert forall|j: int| 0 <= j < k - 1 implies x[j] == y[j] by {
            assert(x[j] == a[j + 1]);
            assert(y[j] == b[j + 1]);
        }
        assert(x[k - 1] == a[k]);
        assert(y[k - 1] == b[k]);
        lemma_lex_less_at(x, y, k - 1);
    }
}

/// A number below 1000, padded to three digits, is its hundreds, tens and
/// units.
pub proof fn lemma_three_digits(n: nat)
    requires
        n < 1000,
    ensures
        zero_padded(n, 3) == seq![
            digit((n / 100) as int),
            digit(((n / 10) % 10) as int),
            digit((n % 10) as int),
        ],
{
    reveal_with_fuel(decimal, 3);
    let d = decimal(n);
    let want = seq![
        digit((n / 100) as int),
        digit(((n / 10) % 10) as int),
        digit((n % 10) as int),
    ];
    if n < 10 {
        assert(d =~= seq![digit(n as int)]);
        assert(zero_padded(n, 3) =~= want);
    } else if n < 100 {
        assert(d =~= seq![digit((n / 10) as int), digit((n % 10) as int)]);
        assert(zero_padded(n, 3) =~= want);
    } else {
        assert(decimal(n / 10) =~= seq![digit((n / 100) as int), digit(((n / 10) % 10) as int)]);
        assert(d =~= want);
    }
}

proof fn lemma_digits_value_prefix(s: Seq<char>, k: int)
    requires
        0 <= k <= s.len(),
        all_digits(s),
    ensures
        digits_value(s.subrange(0, k)) <= digits_value(s),
    decreases s.len() - k,
{
    if k == s.len() {
        assert(s.subrange(0, k) =~= s);
    } else {
        let rest = s.drop_last();
        assert forall|i: int| 0 <= i < rest.len() implies '0' <= #[trigger] rest[i] <= '9' by {
            assert(rest[i] == s[i]);
        }
        lemma_digits_value_prefix(rest, k);
        assert(rest.subrange(0, k) =~= s.subrange(0, k));
        assert('0' <= s[s.len() - 1]);
    }
}

/// Reads `chars[from..to]` as an unsigned decimal numeral. `None` when the
/// text is no such numeral or its value does not fit in `usize`.
pub fn parse_unsigned(chars: &Vec<char>, from: usize, to: usize) -> (r: Option<usize>)
    requires
        from <= to <= chars.len(),
    ensures
        r == match unsigned_value(chars@.subrange(from as int, to as int)) {
            Some(v) => if v <= usize::MAX {
                Some(v as usize)
            } else {
                None
            },
            None => None,
        },
{
    let ghost s = chars@.subrange(from as int, to as int);
    let start: usize = if from < to && chars[from] == '+' {
        from + 1
    } else {
        from
    };
    let ghost body = chars@.subrange(start as int, to as int);
    proof {
        if from < to {
            assert(s.first() == chars@[from as int]);
        }
        if start > from {
            assert(body =~= s.drop_first());
        } else {
            assert(body =~= s);
        }
    }
    if start == to {
        return None;
    }
    assert(unsigned_value(s) == if all_digits(body) {
        Some(digits_value(body))
    } else {
        None::<nat>
    });
    let mut value: usize = 0;
    let mut i: usize = start;
    while i < to
        invariant
            start <= i <= to <= chars.len(),
            from <= start,
            s == chars@.subrange(from as int, to as int),
            body == chars@.subrange(start as int, to as int),
            unsigned_value(s) == if all_digits(body) {
                Some(digits_value(body))
            } else {
                None::<nat>
            },
            all_digits(body.subrange(0, i - start)),
            value == digits_value(body.subrange(0, i - start)),
        decreases to - i,
    {
        let c = chars[i];
        assert(body[i - start] == c);
        if !('0' <= c && c <= '9') {
            return None;
        }
        let d: usize = (c as u32 - '0' as u32) as usize;
        let ghost next = body.subrange(0, i - start + 1);
        proof {
            assert(next.drop_last() =~= body.subrange(0, i - start));
            assert(next.last() == c);
            assert forall|j: int| 0 <= j < next.len() implies '0' <= #[trigger] next[j] <= '9' by {
                if j < i - start {
                    assert(body.subrange(0, i - start)[j] == next[j]);
                }
            }
            if all_digits(body) {
                lemma_digits_value_prefix(body, i - start + 1);
            }
        }
        if value > (usize::MAX - d) / 10 {
            assert(digits_value(next) > usize::MAX);
            return None;
        }
        value = value * 10 + d;
        i += 1;
    }
    assert(body.subrange(0, to - start) =~= body);
    Some(value)
}

/// `dir` and `name` as one path.
pub fn join_path(dir: &str, name: &str) -> (path: String)
    ensures
        path@ == joined(dir@, name@),
{
    let n = dir.unicode_len();
    let mut path = String::from_str(dir);
    if n > 0 && dir.get_char(n - 1) != '/' {
        proof {
            reveal_strlit("/");
        }
        assert("/"@ =~= seq!['/']);
        path.append("/");
    }
    path.append(name);
    path
}

} // verus!
