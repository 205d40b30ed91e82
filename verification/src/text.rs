//! Character-level text helpers: separator search, splitting, and the
//! decimal rendering of counters, each with a specification over
//! sequences of characters.
use vstd::prelude::*;
use vstd::string::*;

verus! {

/// The separator occurs in `s` starting at position `i`.
pub open spec fn matches_at(s: Seq<char>, sep: Seq<char>, i: int) -> bool {
    0 <= i && i + sep.len() <= s.len() && s.subrange(i, i + sep.len()) == sep
}

/// The first position at or after `from` where a non-empty separator occurs.
pub open spec fn find_from(s: Seq<char>, sep: Seq<char>, from: int) -> Option<int>
    decreases s.len() - from,
{
    if sep.len() == 0 || from < 0 || from + sep.len() > s.len() {
        None
    } else if matches_at(s, sep, from) {
        Some(from)
    } else {
        find_from(s, sep, from + 1)
    }
}

/// What `find_from` returns is the first occurrence.
pub proof fn lemma_find_from(s: Seq<char>, sep: Seq<char>, from: int)
    requires
        0 <= from,
    ensures
        match find_from(s, sep, from) {
            Some(i) => from <= i && matches_at(s, sep, i) && sep.len() > 0 && (forall|j: int|
                from <= j < i ==> !#[trigger] matches_at(s, sep, j)),
            None => sep.len() == 0 || forall|j: int| from <= j ==> !#[trigger] matches_at(s, sep, j),
        },
    decreases s.len() - from,
{
    if sep.len() == 0 || from + sep.len() > s.len() {
    } else if matches_at(s, sep, from) {
    } else {
        lemma_find_from(s, sep, from + 1);
    }
}

/// The pieces of `s` between occurrences of the separator, as
/// `str::split` yields them for a non-empty separator. An empty separator
/// gives the whole of `s` as the one piece, where `str::split` would split
/// between every character.
pub open spec fn split_seq(s: Seq<char>, sep: Seq<char>) -> Seq<Seq<char>>
    decreases s.len(),
{
    match find_from(s, sep, 0) {
        Some(i) => {
            proof {
                lemma_find_from(s, sep, 0);
            }
            seq![s.subrange(0, i)] + split_seq(s.subrange(i + sep.len(), s.len() as int), sep)
        },
        None => seq![s],
    }
}

/// `pat` occurs somewhere in `s`.
pub open spec fn contains_seq(s: Seq<char>, pat: Seq<char>) -> bool {
    find_from(s, pat, 0) is Some
}

/// Appends a character to a string: the outside function is `String::push`
/// of std. The contract claims what its documentation states: the
/// character is added at the end.
#[verifier::external_body]
pub(crate) fn push_char(s: &mut String, c: char)
    ensures
        final(s)@ == old(s)@.push(c),
{
    s.push(c)
}

/// The characters of a string, one per element.
pub fn chars_of(s: &str) -> (v: Vec<char>)
    ensures
        v@ == s@,
{
    let n = s.unicode_len();
    let mut v: Vec<char> = Vec::new();
    let mut i: usize = 0;
    while i < n
        invariant
            n == s@.len(),
            i <= n,
            v@ == s@.subrange(0, i as int),
        decreases n - i,
    {
        let c = s.get_char(i);
        v.push(c);
        i = i + 1;
        assert(v@ =~= s@.subrange(0, i as int));
    }
    assert(v@ =~= s@);
    v
}

/// The string made of the characters `v[from..to]`.
pub fn string_of(v: &Vec<char>, from: usize, to: usize) -> (r: String)
    requires
        from <= to <= v@.len(),
    ensures
        r@ == v@.subrange(from as int, to as int),
{
    let mut r = String::new();
    let mut i: usize = from;
    while i < to
        invariant
            from <= i <= to,
            to <= v@.len(),
            r@ == v@.subrange(from as int, i as int),
        decreases to - i,
    {
        push_char(&mut r, v[i]);
        i = i + 1;
        assert(r@ =~= v@.subrange(from as int, i as int));
    }
    r
}

/// Whether the separator occurs in `s` at position `i`.
fn matches_at_exec(s: &Vec<char>, sep: &Vec<char>, i: usize) -> (b: bool)
    ensures
        b == matches_at(s@, sep@, i as int),
{
    let n = s.len();
    let m = sep.len();
    if i > n || m > n - i {
        return false;
    }
    let mut j: usize = 0;
    while j < m
        invariant
            n == s@.len(),
            m == sep@.len(),
            i + m <= n,
            j <= m,
            forall|t: int| 0 <= t < j ==> s@[i + t] == sep@[t],
        decreases m - j,
    {
        if s[i + j] != sep[j] {
            proof {
                assert(s@.subrange(i as int, i + m)[j as int] != sep@[j as int]);
            }
            return false;
        }
        j = j + 1;
    }
    assert(s@.subrange(i as int, i + m) =~= sep@);
    true
}

/// The first position at or after `from` where the separator occurs.
pub fn find_chars(s: &Vec<char>, sep: &Vec<char>, from: usize) -> (r: Option<usize>)
    ensures
        match r {
            Some(i) => find_from(s@, sep@, from as int) == Some(i as int),
            None => find_from(s@, sep@, from as int) is None,
        },
{
    let n = s.len();
    let m = sep.len();
    if m == 0 {
        return None;
    }
    let mut i: usize = from;
    while i <= n && m <= n - i
        invariant
            n == s@.len(),
            m == sep@.len(),
            m > 0,
            from <= i,
            find_from(s@, sep@, from as int) == find_from(s@, sep@, i as int),
        decreases n - i,
    {
        if matches_at_exec(s, sep, i) {
            return Some(i);
        }
        i = i + 1;
    }
    None
}

/// `str::split` on character sequences: the pieces between occurrences of
/// the separator, in order.
pub fn split_chars(s: &Vec<char>, sep: &Vec<char>) -> (r: Vec<String>)
    ensures
        r.deep_view() == split_seq(s@, sep@),
{
    let mut pieces: Vec<String> = Vec::new();
    let mut rest: Vec<char> = s.clone();
    assert(pieces.deep_view() + split_seq(rest@, sep@) =~= split_seq(s@, sep@));
    loop
        invariant
            pieces.deep_view() + split_seq(rest@, sep@) == split_seq(s@, sep@),
        decreases rest@.len(),
    {
        let ghost before = pieces.deep_view();
        match find_chars(&rest, sep, 0) {
            Some(i) => {
                proof {
                    lemma_find_from(rest@, sep@, 0);
                    assert(matches_at(rest@, sep@, i as int));
                }
                let piece = string_of(&rest, 0, i);
                let m = sep.len();
                let rl = rest.len();
                assert(i + m <= rl);
                let tail = string_of_chars(&rest, i + m);
                pieces.push(piece);
                proof {
                    assert(pieces.deep_view() =~= before.push(rest@.subrange(0, i as int)));
                    assert(pieces.deep_view() + split_seq(tail@, sep@) =~= before + split_seq(rest@, sep@));
                }
                rest = tail;
            },
            None => {
                let piece = string_of(&rest, 0, rest.len());
                pieces.push(piece);
                proof {
                    assert(rest@.subrange(0, rest@.len() as int) =~= rest@);
                    assert(pieces.deep_view() =~= before + split_seq(rest@, sep@));
                }
                return pieces;
            },
        }
    }
}

/// The characters `v[from..]`.
fn string_of_chars(v: &Vec<char>, from: usize) -> (r: Vec<char>)
    requires
        from <= v@.len(),
    ensures
        r@ == v@.subrange(from as int, v@.len() as int),
{
    let mut r: Vec<char> = Vec::new();
    let mut i: usize = from;
    while i < v.len()
        invariant
            from <= i <= v@.len(),
            r@ == v@.subrange(from as int, i as int),
        decreases v@.len() - i,
    {
        r.push(v[i]);
        i = i + 1;
        assert(r@ =~= v@.subrange(from as int, i as int));
    }
    r
}

/// The pieces of `s` between occurrences of the separator: `str::split`
/// for a non-empty separator, and the whole of `s` for an empty one.
pub fn split_str(s: &str, sep: &str) -> (r: Vec<String>)
    ensures
        r.deep_view() == split_seq(s@, sep@),
{
    let sv = chars_of(s);
    let pv = chars_of(sep);
    split_chars(&sv, &pv)
}

/// Whether `pat` occurs in `s`.
pub fn contains_str(s: &str, pat: &str) -> (b: bool)
    ensures
        b == contains_seq(s@, pat@),
{
    let sv = chars_of(s);
    let pv = chars_of(pat);
    find_chars(&sv, &pv, 0).is_some()
}

/// The decimal digit for a number below ten.
pub open spec fn digit_char(d: nat) -> char {
    if d == 0 { '0' } else if d == 1 { '1' } else if d == 2 { '2' } else if d == 3 { '3' }
    else if d == 4 { '4' } else if d == 5 { '5' } else if d == 6 { '6' } else if d == 7 { '7' }
    else if d == 8 { '8' } else { '9' }
}

/// The decimal rendering of a natural number, without leading zeros.
pub open spec fn decimal(n: nat) -> Seq<char>
    decreases n,
{
    if n < 10 {
        seq![digit_char(n)]
    } else {
        decimal(n / 10).push(digit_char(n % 10))
    }
}

proof fn lemma_decimal_len(n: nat)
    ensures
        decimal(n).len() >= 1,
        n >= 10 ==> decimal(n).len() >= 2,
    decreases n,
{
    if n >= 10 {
        lemma_decimal_len(n / 10);
    }
}

/// A decimal rendering holds digits only.
pub proof fn lemma_decimal_digits(n: nat)
    ensures
        forall|i: int| 0 <= i < decimal(n).len() ==> '0' <= #[trigger] decimal(n)[i] <= '9',
    decreases n,
{
    let c = digit_char(n % 10);
    assert('0' <= c <= '9');
    if n >= 10 {
        lemma_decimal_digits(n / 10);
        assert forall|i: int| 0 <= i < decimal(n).len() implies '0' <= #[trigger] decimal(n)[i] <= '9' by {
            if i < decimal(n / 10).len() {
                assert(decimal(n)[i] == decimal(n / 10)[i]);
            }
        }
    } else {
        assert(n % 10 == n);
    }
}

/// Distinct numbers have distinct decimal renderings.
pub proof fn lemma_decimal_injective(a: nat, b: nat)
    requires
        decimal(a) == decimal(b),
    ensures
        a == b,
    decreases a,
{
    lemma_decimal_len(a);
    lemma_decimal_len(b);
    if a < 10 && b < 10 {
        assert(decimal(a)[0] == digit_char(a));
        assert(decimal(b)[0] == digit_char(b));
    } else if a >= 10 && b >= 10 {
        assert(decimal(a).last() == digit_char(a % 10));
        assert(decimal(b).last() == digit_char(b % 10));
        assert(decimal(a).drop_last() =~= decimal(a / 10));
        assert(decimal(b).drop_last() =~= decimal(b / 10));
        lemma_decimal_injective(a / 10, b / 10);
    }
}

fn digit_exec(d: u64) -> (c: char)
    requires
        d < 10,
    ensures
        c == digit_char(d as nat),
{
    if d == 0 { '0' } else if d == 1 { '1' } else if d == 2 { '2' } else if d == 3 { '3' }
    else if d == 4 { '4' } else if d == 5 { '5' } else if d == 6 { '6' } else if d == 7 { '7' }
    else if d == 8 { '8' } else { '9' }
}

/// The decimal rendering of a counter.
pub fn u64_to_decimal(n: u64) -> (s: String)
    ensures
        s@ == decimal(n as nat),
    decreases n,
{
    if n < 10 {
        let mut s = String::new();
        push_char(&mut s, digit_exec(n));
        assert(s@ =~= decimal(n as nat));
        s
    } else {
        let mut s = u64_to_decimal(n / 10);
        push_char(&mut s, digit_exec(n % 10));
        s
    }
}

/// The value of a decimal digit character, if it is one.
pub open spec fn digit_value(c: char) -> Option<nat> {
    if '0' <= c && c <= '9' {
        Some((c as nat - '0' as nat) as nat)
    } else {
        None
    }
}

/// The number a string of decimal digits denotes; none when the string is
/// empty or holds anything but digits.
pub open spec fn decimal_value(s: Seq<char>) -> Option<nat>
    decreases s.len(),
{
    if s.len() == 0 {
        None
    } else {
        match digit_value(s.last()) {
            None => None,
            Some(d) => if s.len() == 1 {
                Some(d)
            } else {
                match decimal_value(s.drop_last()) {
                    None => None,
                    Some(v) => Some(v * 10 + d),
                }
            },
        }
    }
}

/// Reads a string of decimal digits as a 32-bit unsigned number: none
/// when it is not such a string or the number does not fit.
pub fn parse_u32(s: &str) -> (r: Option<u32>)
    ensures
        match r {
            Some(v) => decimal_value(s@) == Some(v as nat),
            None => decimal_value(s@) is None || decimal_value(s@).unwrap() > u32::MAX,
        },
{
    let v = chars_of(s);
    let n = v.len();
    if n == 0 {
        return None;
    }
    let mut acc: u64 = 0;
    let mut i: usize = 0;
    while i < n
        invariant
            n == v@.len(),
            v@ == s@,
            0 < n,
            i <= n,
            acc <= u32::MAX,
            i == 0 ==> acc == 0,
            i > 0 ==> decimal_value(v@.subrange(0, i as int)) == Some(acc as nat),
        decreases n - i,
    {
        let c = v[i];
        let ghost pre = v@.subrange(0, i as int);
        let ghost cur = v@.subrange(0, i as int + 1);
        assert(cur.drop_last() =~= pre);
        assert(cur.last() == c);
        if !('0' <= c && c <= '9') {
            proof {
                lemma_decimal_value_prefix(v@, i as int + 1);
            }
            return None;
        }
        let d = (c as u32 - '0' as u32) as u64;
        acc = acc * 10 + d;
        if acc > 4294967295u64 {
            proof {
                lemma_decimal_value_grows(v@, i as int + 1);
            }
            return None;
        }
        i = i + 1;
    }
    assert(v@.subrange(0, n as int) =~= v@);
    Some(acc as u32)
}

/// A string whose prefix is not a decimal number is not one either.
proof fn lemma_decimal_value_prefix(s: Seq<char>, k: int)
    requires
        0 < k <= s.len(),
        decimal_value(s.subrange(0, k)) is None,
    ensures
        decimal_value(s) is None,
    decreases s.len() - k,
{
    if k < s.len() {
        let t = s.subrange(0, k + 1);
        assert(t.drop_last() =~= s.subrange(0, k));
        lemma_decimal_value_prefix(s, k + 1);
    } else {
        assert(s.subrange(0, k) =~= s);
    }
}

/// Extending a decimal number by digits never makes it smaller.
proof fn lemma_decimal_value_grows(s: Seq<char>, k: int)
    requires
        0 < k <= s.len(),
        decimal_value(s.subrange(0, k)) is Some,
    ensures
        decimal_value(s) is None || decimal_value(s).unwrap() >= decimal_value(s.subrange(0, k)).unwrap(),
    decreases s.len() - k,
{
    if k < s.len() {
        let t = s.subrange(0, k + 1);
        assert(t.drop_last() =~= s.subrange(0, k));
        if decimal_value(t) is Some {
            lemma_decimal_value_grows(s, k + 1);
        } else {
            lemma_decimal_value_prefix(s, k + 1);
        }
    } else {
        assert(s.subrange(0, k) =~= s);
    }
}

} // verus!
