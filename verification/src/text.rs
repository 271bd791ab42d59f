//! Small verified text utilities: white-space trimming, character-exact
//! string comparison, decimal rendering of integers and log-line tagging.

use vstd::prelude::*;

verus! {

/// The character sequences of a vector of strings, in order.
pub open spec fn string_views(v: Seq<String>) -> Seq<Seq<char>> {
    Seq::new(v.len(), |i: int| v[i]@)
}

/// The Unicode white-space code points (the set `char::is_whitespace`
/// recognises).
pub open spec fn is_space_char(c: char) -> bool {
    let n = c as u32;
    (0x09 <= n && n <= 0x0d) || n == 0x20 || n == 0x85 || n == 0xa0 || n == 0x1680 || (0x2000
        <= n && n <= 0x200a) || n == 0x2028 || n == 0x2029 || n == 0x202f || n == 0x205f || n
        == 0x3000
}

/// Runtime check for [`is_space_char`].
pub fn is_space(c: char) -> (r: bool)
    ensures
        r == is_space_char(c),
{
    let n = c as u32;
    (0x09 <= n && n <= 0x0d) || n == 0x20 || n == 0x85 || n == 0xa0 || n == 0x1680 || (0x2000
        <= n && n <= 0x200a) || n == 0x2028 || n == 0x2029 || n == 0x202f || n == 0x205f || n
        == 0x3000
}

/// The sequence with its leading white-space removed.
pub open spec fn trim_front(s: Seq<char>) -> Seq<char>
    decreases s.len(),
{
    if s.len() > 0 && is_space_char(s[0]) {
        trim_front(s.drop_first())
    } else {
        s
    }
}

/// The sequence with its trailing white-space removed.
pub open spec fn trim_back(s: Seq<char>) -> Seq<char>
    decreases s.len(),
{
    if s.len() > 0 && is_space_char(s.last()) {
        trim_back(s.drop_last())
    } else {
        s
    }
}

/// The sequence with leading and trailing white-space removed: what
/// `str::trim` leaves.
pub open spec fn trimmed(s: Seq<char>) -> Seq<char> {
    trim_back(trim_front(s))
}

proof fn lemma_trim_front_prefix(s: Seq<char>, i: int)
    requires
        0 <= i <= s.len(),
        forall|k: int| 0 <= k < i ==> is_space_char(s[k]),
        i == s.len() || !is_space_char(s[i]),
    ensures
        trim_front(s) == s.subrange(i, s.len() as int),
    decreases i,
{
    if i == 0 {
        assert(s.subrange(0, s.len() as int) =~= s);
    } else {
        let t = s.drop_first();
        lemma_trim_front_prefix(t, i - 1);
        assert(t.subrange(i - 1, t.len() as int) =~= s.subrange(i, s.len() as int));
    }
}

proof fn lemma_trim_back_suffix(s: Seq<char>, j: int)
    requires
        0 <= j <= s.len(),
        forall|k: int| j <= k < s.len() ==> is_space_char(s[k]),
        j == 0 || !is_space_char(s[j - 1]),
    ensures
        trim_back(s) == s.subrange(0, j),
    decreases s.len(),
{
    if j < s.len() {
        let t = s.drop_last();
        lemma_trim_back_suffix(t, j);
        assert(t.subrange(0, j) =~= s.subrange(0, j));
    } else {
        assert(s.subrange(0, s.len() as int) =~= s);
    }
}

/// `trimmed(s)` is exactly the subrange that the two scans of [`trim_str`]
/// delimit.
proof fn lemma_trimmed_subrange(s: Seq<char>, i: int, j: int)
    requires
        0 <= i <= j <= s.len(),
        forall|k: int| 0 <= k < i ==> is_space_char(s[k]),
        i == s.len() || !is_space_char(s[i]),
        forall|k: int| j <= k < s.len() ==> is_space_char(s[k]),
        i == j || !is_space_char(s[j - 1]),
    ensures
        trimmed(s) == s.subrange(i, j),
{
    lemma_trim_front_prefix(s, i);
    let t = s.subrange(i, s.len() as int);
    lemma_trim_back_suffix(t, j - i);
    assert(t.subrange(0, j - i) =~= s.subrange(i, j));
}

proof fn lemma_trim_front_head(s: Seq<char>)
    ensures
        trim_front(s).len() > 0 ==> !is_space_char(trim_front(s)[0]),
    decreases s.len(),
{
    if s.len() > 0 && is_space_char(s[0]) {
        lemma_trim_front_head(s.drop_first());
    }
}

proof fn lemma_trim_back_is_prefix(s: Seq<char>)
    ensures
        trim_back(s).len() <= s.len(),
        forall|k: int| 0 <= k < trim_back(s).len() ==> trim_back(s)[k] == s[k],
    decreases s.len(),
{
    if s.len() > 0 && is_space_char(s.last()) {
        lemma_trim_back_is_prefix(s.drop_last());
        assert forall|k: int| 0 <= k < trim_back(s).len() implies trim_back(s)[k] == s[k] by {
            assert(trim_back(s) == trim_back(s.drop_last()));
            assert(s.drop_last()[k] == s[k]);
        }
    }
}

proof fn lemma_trim_back_last(s: Seq<char>)
    ensures
        trim_back(s).len() > 0 ==> !is_space_char(trim_back(s).last()),
    decreases s.len(),
{
    if s.len() > 0 && is_space_char(s.last()) {
        lemma_trim_back_last(s.drop_last());
    }
}

/// Trimming is idempotent: a string that came out of [`trimmed`] is left
/// unchanged by trimming it again.
pub proof fn lemma_trimmed_idempotent(s: Seq<char>)
    ensures
        trimmed(trimmed(s)) == trimmed(s),
{
    let t1 = trim_front(s);
    let t = trim_back(t1);
    lemma_trim_front_head(s);
    lemma_trim_back_is_prefix(t1);
    lemma_trim_back_last(t1);
    if t.len() == 0 {
        assert(trim_front(t) == t);
        assert(trim_back(t) == t);
    } else {
        assert(t[0] == t1[0]);
        assert(trim_front(t) == t);
        assert(trim_back(t) == t);
    }
}

/// White-space trimming, proved equal to the [`trimmed`] model.
pub fn trim_str<'a>(s: &'a str) -> (r: &'a str)
    ensures
        r@ == trimmed(s@),
{
    let n = s.unicode_len();
    let mut start: usize = 0;
    while start < n
        invariant
            n == s@.len(),
            start <= n,
            forall|k: int| 0 <= k < start ==> is_space_char(s@[k]),
        ensures
            start <= n,
            forall|k: int| 0 <= k < start ==> is_space_char(s@[k]),
            start == n || !is_space_char(s@[start as int]),
        decreases n - start,
    {
        if !is_space(s.get_char(start)) {
            break ;
        }
        start = start + 1;
    }
    let mut end: usize = n;
    while end > start
        invariant
            n == s@.len(),
            start <= end <= n,
            forall|k: int| end <= k < n ==> is_space_char(s@[k]),
        ensures
            start <= end <= n,
            forall|k: int| end <= k < n ==> is_space_char(s@[k]),
            end == start || !is_space_char(s@[end - 1]),
        decreases end,
    {
        if !is_space(s.get_char(end - 1)) {
            break ;
        }
        end = end - 1;
    }
    proof {
        if end == start && start < n {
            assert(is_space_char(s@[start as int]));
        }
        lemma_trimmed_subrange(s@, start as int, end as int);
    }
    s.substring_char(start, end)
}

/// Character-exact comparison of two string slices.
pub fn str_eq(a: &str, b: &str) -> (r: bool)
    ensures
        r == (a@ == b@),
{
    let n = a.unicode_len();
    if n != b.unicode_len() {
        return false;
    }
    let mut i: usize = 0;
    while i < n
        invariant
            n == a@.len(),
            n == b@.len(),
            i <= n,
            forall|k: int| 0 <= k < i ==> a@[k] == b@[k],
        decreases n - i,
    {
        if a.get_char(i) != b.get_char(i) {
            return false;
        }
        i = i + 1;
    }
    proof {
        assert(a@ =~= b@);
    }
    true
}

/// The decimal digit for `d`.
pub open spec fn dec_digit_char(d: int) -> char {
    if d == 0 {
        '0'
    } else if d == 1 {
        '1'
    } else if d == 2 {
        '2'
    } else if d == 3 {
        '3'
    } else if d == 4 {
        '4'
    } else if d == 5 {
        '5'
    } else if d == 6 {
        '6'
    } else if d == 7 {
        '7'
    } else if d == 8 {
        '8'
    } else {
        '9'
    }
}

/// Decimal rendering of a natural number, most significant digit first.
pub open spec fn dec_chars(n: nat) -> Seq<char>
    decreases n,
{
    if n < 10 {
        seq![dec_digit_char(n as int)]
    } else {
        dec_chars(n / 10) + seq![dec_digit_char((n % 10) as int)]
    }
}

/// Decimal rendering of a signed number: a minus sign before the magnitude.
pub open spec fn dec_chars_signed(n: int) -> Seq<char> {
    if n >= 0 {
        dec_chars(n as nat)
    } else {
        seq!['-'] + dec_chars((-n) as nat)
    }
}

fn digit_str(d: u64) -> (r: &'static str)
    requires
        d < 10,
    ensures
        r@ =~= seq![dec_digit_char(d as int)],
{
    proof {
        reveal_strlit("0");
        reveal_strlit("1");
        reveal_strlit("2");
        reveal_strlit("3");
        reveal_strlit("4");
        reveal_strlit("5");
        reveal_strlit("6");
        reveal_strlit("7");
        reveal_strlit("8");
        reveal_strlit("9");
    }
    if d == 0 {
        "0"
    } else if d == 1 {
        "1"
    } else if d == 2 {
        "2"
    } else if d == 3 {
        "3"
    } else if d == 4 {
        "4"
    } else if d == 5 {
        "5"
    } else if d == 6 {
        "6"
    } else if d == 7 {
        "7"
    } else if d == 8 {
        "8"
    } else {
        "9"
    }
}

/// Decimal rendering of a `u64`, proved equal to the [`dec_chars`] model.
pub fn u64_to_dec(n: u64) -> (r: String)
    ensures
        r@ == dec_chars(n as nat),
    decreases n,
{
    if n < 10 {
        digit_str(n).to_owned()
    } else {
        let mut prefix = u64_to_dec(n / 10);
        prefix.append(digit_str(n % 10));
        proof {
            assert(prefix@ =~= dec_chars(n as nat));
        }
        prefix
    }
}

/// Decimal rendering of a `u16`.
pub fn u16_to_dec(n: u16) -> (r: String)
    ensures
        r@ == dec_chars(n as nat),
{
    u64_to_dec(n as u64)
}

/// Decimal rendering of an `i64`, minus sign included.
pub fn i64_to_dec(n: i64) -> (r: String)
    ensures
        r@ == dec_chars_signed(n as int),
{
    if n >= 0 {
        u64_to_dec(n as u64)
    } else {
        let mag: u64 = ((-(n + 1)) as u64) + 1;
        proof {
            reveal_strlit("-");
            assert(mag as int == -(n as int));
        }
        let mut s = String::from_str("-");
        let digits = u64_to_dec(mag);
        s.append(digits.as_str());
        proof {
            assert(s@ =~= dec_chars_signed(n as int));
        }
        s
    }
}

/// A published log line: the producer tag in brackets before the text, as in
/// `[bridge] ...`.
pub fn tag_line(tag: &str, line: &str) -> (r: String)
    ensures
        r@ == seq!['['] + tag@ + seq![']', ' '] + line@,
{
    proof {
        reveal_strlit("[");
        reveal_strlit("] ");
    }
    let mut s = String::from_str("[");
    s.append(tag);
    s.append("] ");
    s.append(line);
    proof {
        assert(s@ =~= seq!['['] + tag@ + seq![']', ' '] + line@);
    }
    s
}

} // verus!
