//! Verified string helpers used by the resolver and the entity types.
//!
//! Everything here works on character sequences.  The few operations that
//! depend on Unicode tables (case mapping, whitespace) are taken from std
//! behind trusted wrappers; the rest is verified against exact specs.

use vstd::prelude::*;
use vstd::string::StrSliceExecFns;
use vstd::string::StringExecFns;

verus! {

// ---------------------------------------------------------------------------
// Unicode facts taken from std.
// ---------------------------------------------------------------------------

pub uninterp spec fn lower_of(s: Seq<char>) -> Seq<char>;

pub uninterp spec fn upper_chars_of(c: char) -> Seq<char>;

pub uninterp spec fn is_upper_char(c: char) -> bool;

pub uninterp spec fn is_lower_char(c: char) -> bool;

pub uninterp spec fn is_white_char(c: char) -> bool;

/// Relies on str::to_lowercase: the result depends on the characters alone.
#[verifier::external_body]
pub fn to_lowercase(s: &str) -> (r: String)
    ensures
        r@ == lower_of(s@),
{
    s.to_lowercase()
}

/// Relies on char::to_uppercase: the uppercase mapping of one character,
/// which may be more than one character long.
#[verifier::external_body]
pub fn char_to_uppercase(c: char) -> (r: Vec<char>)
    ensures
        r@ == upper_chars_of(c),
{
    c.to_uppercase().collect()
}

/// Relies on char::is_uppercase: whether the character is Unicode uppercase.
#[verifier::external_body]
pub fn char_is_uppercase(c: char) -> (r: bool)
    ensures
        r == is_upper_char(c),
{
    c.is_uppercase()
}

/// Relies on char::is_lowercase: whether the character is Unicode lowercase.
#[verifier::external_body]
pub fn char_is_lowercase(c: char) -> (r: bool)
    ensures
        r == is_lower_char(c),
{
    c.is_lowercase()
}

/// Relies on char::is_whitespace: whether the character is Unicode whitespace.
#[verifier::external_body]
pub fn char_is_whitespace(c: char) -> (r: bool)
    ensures
        r == is_white_char(c),
{
    c.is_whitespace()
}

/// Relies on String::push: appends one character at the end.
#[verifier::external_body]
pub fn push_char(s: &mut String, c: char)
    ensures
        final(s)@ == old(s)@.push(c),
{
    s.push(c)
}

// ---------------------------------------------------------------------------
// Substring search.
// ---------------------------------------------------------------------------

/// `p` occurs as a contiguous subsequence of `s`.
pub open spec fn spec_contains(s: Seq<char>, p: Seq<char>) -> bool {
    exists|i: int| 0 <= i && i + p.len() <= s.len() && #[trigger] s.subrange(i, i + p.len()) == p
}

/// `p` occurs at position `i` of `s`.
pub fn match_at(s: &str, p: &str, i: usize) -> (r: bool)
    requires
        i + p@.len() <= s@.len(),
    ensures
        r == (s@.subrange(i as int, i as int + p@.len() as int) == p@),
{
    let n = s.unicode_len();
    let pn = p.unicode_len();
    let mut j: usize = 0;
    while j < pn
        invariant
            n == s@.len(),
            pn == p@.len(),
            i + pn <= n,
            0 <= j <= pn,
            forall|k: int| 0 <= k < j ==> s@[i + k] == p@[k],
        decreases pn - j,
    {
        if s.get_char(i + j) != p.get_char(j) {
            assert(s@.subrange(i as int, i as int + pn as int)[j as int] != p@[j as int]);
            return false;
        }
        j += 1;
    }
    assert(s@.subrange(i as int, i as int + pn as int) =~= p@);
    true
}

/// Whether `p` occurs anywhere in `s`.
pub fn str_contains(s: &str, p: &str) -> (r: bool)
    ensures
        r == spec_contains(s@, p@),
{
    let n = s.unicode_len();
    let pn = p.unicode_len();
    if pn > n {
        assert(!spec_contains(s@, p@));
        return false;
    }
    if pn == 0 {
        assert(s@.subrange(0, 0 + p@.len() as int) =~= p@);
        return true;
    }
    let mut i: usize = 0;
    while i <= n - pn
        invariant
            n == s@.len(),
            pn == p@.len(),
            1 <= pn <= n,
            0 <= i <= n - pn + 1,
            forall|k: int| 0 <= k < i ==> #[trigger] s@.subrange(k, k + pn as int) != p@,
        decreases n - i,
    {
        if match_at(s, p, i) {
            return true;
        }
        i += 1;
    }
    assert forall|k: int| 0 <= k && k + pn as int <= n as int implies #[trigger] s@.subrange(
        k,
        k + pn as int,
    ) != p@ by {
        assert(k < i);
    }
    false
}

/// Whether two string slices hold the same characters.
pub fn str_eq(a: &str, b: &str) -> (r: bool)
    ensures
        r == (a@ == b@),
{
    let an = a.unicode_len();
    let bn = b.unicode_len();
    if an != bn {
        return false;
    }
    if match_at(a, b, 0) {
        assert(a@.subrange(0, 0 + b@.len() as int) =~= a@);
        true
    } else {
        assert(a@.subrange(0, 0 + b@.len() as int) =~= a@);
        false
    }
}

// ---------------------------------------------------------------------------
// Lexicographic order on character sequences, by scalar value.
// ---------------------------------------------------------------------------

pub open spec fn spec_lex_le(a: Seq<char>, b: Seq<char>) -> bool
    decreases a.len(),
{
    if a.len() == 0 {
        true
    } else if b.len() == 0 {
        false
    } else if (a[0] as u32) < (b[0] as u32) {
        true
    } else if (a[0] as u32) > (b[0] as u32) {
        false
    } else {
        spec_lex_le(a.drop_first(), b.drop_first())
    }
}

/// Lexicographic less-or-equal on two strings, by character scalar value.
pub fn str_lex_le(a: &str, b: &str) -> (r: bool)
    ensures
        r == spec_lex_le(a@, b@),
{
    let an = a.unicode_len();
    let bn = b.unicode_len();
    let mut i: usize = 0;
    assert(a@.skip(0) =~= a@);
    assert(b@.skip(0) =~= b@);
    while i < an && i < bn
        invariant
            an == a@.len(),
            bn == b@.len(),
            0 <= i <= an,
            0 <= i <= bn,
            spec_lex_le(a@, b@) == spec_lex_le(a@.skip(i as int), b@.skip(i as int)),
        decreases an - i,
    {
        let ca = a.get_char(i);
        let cb = b.get_char(i);
        let ghost ta = a@.skip(i as int);
        let ghost tb = b@.skip(i as int);
        assert(ta[0] == a@[i as int]);
        assert(tb[0] == b@[i as int]);
        if (ca as u32) < (cb as u32) {
            return true;
        }
        if (ca as u32) > (cb as u32) {
            return false;
        }
        assert(ta.drop_first() =~= a@.skip(i as int + 1));
        assert(tb.drop_first() =~= b@.skip(i as int + 1));
        i += 1;
    }
    if i == an {
        assert(a@.skip(i as int).len() == 0);
        true
    } else {
        assert(b@.skip(i as int).len() == 0);
        assert(a@.skip(i as int).len() > 0);
        false
    }
}

// ---------------------------------------------------------------------------
// Replacement of every non-overlapping occurrence, left to right.
// ---------------------------------------------------------------------------

pub open spec fn spec_replace(s: Seq<char>, p: Seq<char>, r: Seq<char>) -> Seq<char>
    decreases s.len(),
{
    if p.len() == 0 || s.len() < p.len() {
        s
    } else if s.take(p.len() as int) == p {
        r + spec_replace(s.skip(p.len() as int), p, r)
    } else {
        seq![s[0]] + spec_replace(s.skip(1), p, r)
    }
}

proof fn lemma_replace_unfold(s: Seq<char>, p: Seq<char>, r: Seq<char>)
    requires
        p.len() >= 1,
        s.len() >= 1,
    ensures
        (s.len() >= p.len() && s.take(p.len() as int) == p) ==> spec_replace(s, p, r) == r
            + spec_replace(s.skip(p.len() as int), p, r),
        !(s.len() >= p.len() && s.take(p.len() as int) == p) ==> spec_replace(s, p, r) == seq![
            s[0],
        ] + spec_replace(s.skip(1), p, r),
{
    if s.len() < p.len() {
        assert(spec_replace(s, p, r) == s);
        assert(s.skip(1).len() < p.len());
        assert(spec_replace(s.skip(1), p, r) == s.skip(1));
        assert(seq![s[0]] + s.skip(1) =~= s);
    }
}

/// Replaces every non-overlapping occurrence of `p` in `s` with `r`,
/// scanning left to right.  An empty pattern leaves the string unchanged.
pub fn replace_all(s: &str, p: &str, r: &str) -> (out: String)
    ensures
        out@ == spec_replace(s@, p@, r@),
{
    let n = s.unicode_len();
    let pn = p.unicode_len();
    if pn == 0 {
        return s.to_owned();
    }
    let mut out = String::new();
    let mut i: usize = 0;
    assert(s@.skip(0) =~= s@);
    while i < n
        invariant
            n == s@.len(),
            pn == p@.len(),
            pn >= 1,
            0 <= i <= n,
            out@ + spec_replace(s@.skip(i as int), p@, r@) == spec_replace(s@, p@, r@),
        decreases n - i,
    {
        let ghost tail = s@.skip(i as int);
        proof {
            lemma_replace_unfold(tail, p@, r@);
        }
        if pn <= n - i && match_at(s, p, i) {
            assert(tail.take(pn as int) =~= s@.subrange(i as int, i as int + pn as int));
            out.append(r);
            i += pn;
            assert(tail.skip(pn as int) =~= s@.skip(i as int));
        } else {
            if pn <= n - i {
                assert(tail.take(pn as int) =~= s@.subrange(i as int, i as int + pn as int));
            }
            assert(!(tail.len() >= pn && tail.take(pn as int) == p@));
            let piece = s.substring_char(i, i + 1);
            assert(piece@ =~= seq![tail[0]]);
            out.append(piece);
            i += 1;
            assert(tail.skip(1) =~= s@.skip(i as int));
        }
    }
    assert(s@.skip(n as int) =~= Seq::<char>::empty());
    assert(spec_replace(s@.skip(n as int), p@, r@) =~= Seq::<char>::empty());
    assert(out@ =~= out@ + Seq::<char>::empty());
    out
}

// ---------------------------------------------------------------------------
// Trimming Unicode whitespace from both ends.
// ---------------------------------------------------------------------------

pub open spec fn trim_front(s: Seq<char>) -> Seq<char>
    decreases s.len(),
{
    if s.len() > 0 && is_white_char(s[0]) {
        trim_front(s.drop_first())
    } else {
        s
    }
}

pub open spec fn trim_back(s: Seq<char>) -> Seq<char>
    decreases s.len(),
{
    if s.len() > 0 && is_white_char(s.last()) {
        trim_back(s.drop_last())
    } else {
        s
    }
}

pub open spec fn spec_trim(s: Seq<char>) -> Seq<char> {
    trim_back(trim_front(s))
}

/// Removes leading and trailing whitespace.
pub fn trim(s: &str) -> (out: String)
    ensures
        out@ == spec_trim(s@),
{
    let n = s.unicode_len();
    let mut a: usize = 0;
    assert(s@.skip(0) =~= s@);
    while a < n && char_is_whitespace(s.get_char(a))
        invariant
            n == s@.len(),
            0 <= a <= n,
            trim_front(s@.skip(a as int)) == trim_front(s@),
        decreases n - a,
    {
        let ghost tail = s@.skip(a as int);
        assert(tail.drop_first() =~= s@.skip(a as int + 1));
        a += 1;
    }
    let ghost front = s@.skip(a as int);
    assert(trim_front(front) == front);
    let mut b: usize = n;
    while b > a && char_is_whitespace(s.get_char(b - 1))
        invariant
            n == s@.len(),
            0 <= a <= b <= n,
            trim_front(s@.skip(a as int)) == trim_front(s@),
            trim_back(s@.subrange(a as int, b as int)) == trim_back(s@.skip(a as int)),
        decreases b,
    {
        let ghost part = s@.subrange(a as int, b as int);
        assert(part.last() == s@[b as int - 1]);
        assert(part.drop_last() =~= s@.subrange(a as int, b as int - 1));
        b -= 1;
    }
    let ghost part = s@.subrange(a as int, b as int);
    assert(trim_back(part) == part);
    s.substring_char(a, b).to_owned()
}

// ---------------------------------------------------------------------------
// Decimal formatting of integers.
// ---------------------------------------------------------------------------

pub open spec fn dec_digit_char(d: int) -> char {
    if d == 0 {
        '0'
    } else if d == 1 {
        '1'
    } else if d == 2 {
        '2'
    } else if d == 3 {
        '3'
    } else if d == 4 {
        '4'
    } else if d == 5 {
        '5'
    } else if d == 6 {
        '6'
    } else if d == 7 {
        '7'
    } else if d == 8 {
        '8'
    } else {
        '9'
    }
}

/// The decimal digits of a non-negative integer, most significant first.
pub open spec fn spec_nat_dec(n: int) -> Seq<char>
    decreases n,
{
    if n < 10 {
        seq![dec_digit_char(n)]
    } else {
        spec_nat_dec(n / 10).push(dec_digit_char(n % 10))
    }
}

/// The decimal rendering of an integer, with a leading minus when negative.
pub open spec fn spec_i64_dec(n: int) -> Seq<char> {
    if n < 0 {
        seq!['-'] + spec_nat_dec(-n)
    } else {
        spec_nat_dec(n)
    }
}

fn digit_str(d: u64) -> (r: &'static str)
    requires
        d < 10,
    ensures
        r@ =~= seq![dec_digit_char(d as int)],
{
    if d == 0 {
        proof {
            reveal_strlit("0");
        }
        "0"
    } else if d == 1 {
        proof {
            reveal_strlit("1");
        }
        "1"
    } else if d == 2 {
        proof {
            reveal_strlit("2");
        }
        "2"
    } else if d == 3 {
        proof {
            reveal_strlit("3");
        }
        "3"
    } else if d == 4 {
        proof {
            reveal_strlit("4");
        }
        "4"
    } else if d == 5 {
        proof {
            reveal_strlit("5");
        }
        "5"
    } else if d == 6 {
        proof {
            reveal_strlit("6");
        }
        "6"
    } else if d == 7 {
        proof {
            reveal_strlit("7");
        }
        "7"
    } else if d == 8 {
        proof {
            reveal_strlit("8");
        }
        "8"
    } else {
        proof {
            reveal_strlit("9");
        }
        "9"
    }
}

fn u64_dec(n: u64) -> (r: String)
    ensures
        r@ == spec_nat_dec(n as int),
    decreases n,
{
    if n < 10 {
        digit_str(n).to_owned()
    } else {
        let mut s = u64_dec(n / 10);
        s.append(digit_str(n % 10));
        assert(s@ =~= spec_nat_dec(n as int / 10).push(dec_digit_char(n as int % 10)));
        s
    }
}

/// Renders a signed integer in decimal.
pub fn i64_to_string(n: i64) -> (r: String)
    ensures
        r@ == spec_i64_dec(n as int),
{
    if n >= 0 {
        u64_dec(n as u64)
    } else {
        let m: u64 = if n == -9223372036854775808i64 {
            9223372036854775808u64
        } else {
            (-n) as u64
        };
        assert(m as int == -(n as int));
        let mut out = "-".to_owned();
        proof {
            reveal_strlit("-");
        }
        assert(out@ =~= seq!['-']);
        let digits = u64_dec(m);
        out.append(digits.as_str());
        out
    }
}

// ---------------------------------------------------------------------------
// Parsing a run of decimal digits.
// ---------------------------------------------------------------------------

pub open spec fn is_digit(c: char) -> bool {
    '0' <= c && c <= '9'
}

pub open spec fn all_digits(s: Seq<char>) -> bool {
    forall|i: int| 0 <= i < s.len() ==> is_digit(#[trigger] s[i])
}

/// The value of a digit string, most significant digit first.
pub open spec fn digits_val(s: Seq<char>) -> int
    decreases s.len(),
{
    if s.len() == 0 {
        0
    } else {
        digits_val(s.drop_last()) * 10 + (s.last() as int - '0' as int)
    }
}

proof fn lemma_digits_val_nonneg(s: Seq<char>)
    requires
        all_digits(s),
    ensures
        digits_val(s) >= 0,
    decreases s.len(),
{
    if s.len() > 0 {
        lemma_digits_val_nonneg(s.drop_last());
    }
}

proof fn lemma_digits_val_prefix(s: Seq<char>, k: int)
    requires
        all_digits(s),
        0 <= k <= s.len(),
    ensures
        digits_val(s.take(k)) <= digits_val(s),
    decreases s.len() - k,
{
    if k < s.len() {
        lemma_digits_val_prefix(s, k + 1);
        let t = s.take(k + 1);
        assert(t.drop_last() =~= s.take(k));
        lemma_digits_val_nonneg(s.take(k));
        assert(digits_val(t) == digits_val(s.take(k)) * 10 + (t.last() as int - '0' as int));
        assert(t.last() == s[k]);
        assert(digits_val(s.take(k)) <= digits_val(t)) by {
            assert(digits_val(s.take(k)) * 10 >= digits_val(s.take(k)));
        }
    } else {
        assert(s.take(k) =~= s);
    }
}

/// Parses the digits of `s` between positions `from` and `to`.
/// Yields the value when the range is non-empty, all digits, and the value
/// fits an `i64`; `None` otherwise.
pub fn parse_digits(s: &str, from: usize, to: usize) -> (r: Option<i64>)
    requires
        from <= to <= s@.len(),
    ensures
        ({
            let t = s@.subrange(from as int, to as int);
            match r {
                Some(v) => to > from && all_digits(t) && v as int == digits_val(t) && digits_val(t)
                    <= i64::MAX,
                None => to == from || !all_digits(t) || digits_val(t) > i64::MAX,
            }
        }),
{
    let ghost t = s@.subrange(from as int, to as int);
    if to == from {
        return None;
    }
    let mut acc: i64 = 0;
    let mut i: usize = from;
    while i < to
        invariant
            from <= i <= to <= s@.len(),
            t == s@.subrange(from as int, to as int),
            all_digits(s@.subrange(from as int, i as int)),
            acc as int == digits_val(s@.subrange(from as int, i as int)),
            acc >= 0,
        decreases to - i,
    {
        let c = s.get_char(i);
        if c < '0' || c > '9' {
            assert(t[i - from] == c);
            assert(!all_digits(t));
            return None;
        }
        let d: i64 = (c as u32 - '0' as u32) as i64;
        assert(0 <= d <= 9);
        if acc > (9223372036854775807i64 - d) / 10 {
            proof {
                let part = s@.subrange(from as int, i as int + 1);
                assert(part.drop_last() =~= s@.subrange(from as int, i as int));
                assert(part.last() == c);
                assert(forall|k: int|
                    0 <= k < part.len() ==> is_digit(#[trigger] part[k]) == is_digit(t[k]));
                if all_digits(t) {
                    assert(all_digits(part)) by {
                        assert(forall|k: int| 0 <= k < part.len() ==> part[k] == t[k]);
                    }
                    assert(digits_val(part) == acc as int * 10 + d);
                    assert(digits_val(part) > i64::MAX);
                    assert(part =~= t.take(i as int + 1 - from));
                    lemma_digits_val_prefix(t, i as int + 1 - from);
                }
            }
            return None;
        }
        let next = acc * 10 + d;
        proof {
            let part = s@.subrange(from as int, i as int + 1);
            assert(part.drop_last() =~= s@.subrange(from as int, i as int));
            assert(part.last() == c);
            assert(digits_val(part) == acc as int * 10 + d);
            assert(forall|k: int|
                0 <= k < i as int + 1 - from ==> #[trigger] part[k] == s@.subrange(
                    from as int,
                    i as int,
                ).push(c)[k]);
        }
        acc = next;
        i += 1;
        assert(all_digits(s@.subrange(from as int, i as int)));
    }
    assert(t =~= s@.subrange(from as int, to as int));
    assert(acc as int == digits_val(t));
    Some(acc)
}

// ---------------------------------------------------------------------------
// Finding a character, and reading the size of a hit die.
// ---------------------------------------------------------------------------

/// The first position at or after `from` holding `c`, or `s.len()`.
pub open spec fn first_pos(s: Seq<char>, c: char, from: int) -> int
    decreases s.len() - from,
{
    if from < 0 || from >= s.len() {
        s.len() as int
    } else if s[from] == c {
        from
    } else {
        first_pos(s, c, from + 1)
    }
}

pub proof fn lemma_first_pos(s: Seq<char>, c: char, from: int)
    requires
        0 <= from <= s.len(),
    ensures
        from <= first_pos(s, c, from) <= s.len(),
        first_pos(s, c, from) < s.len() ==> s[first_pos(s, c, from)] == c,
        forall|k: int| from <= k < first_pos(s, c, from) ==> s[k] != c,
    decreases s.len() - from,
{
    if from < s.len() && s[from] != c {
        lemma_first_pos(s, c, from + 1);
    }
}

/// Finds the first occurrence of `c` at or after `from`, yielding the
/// string's length when there is none.
pub fn find_char(s: &str, c: char, from: usize) -> (r: usize)
    requires
        from <= s@.len(),
    ensures
        r as int == first_pos(s@, c, from as int),
{
    proof {
        lemma_first_pos(s@, c, from as int);
    }
    let n = s.unicode_len();
    let mut i: usize = from;
    while i < n
        invariant
            from <= i <= n,
            n == s@.len(),
            forall|k: int| from <= k < i ==> s@[k] != c,
        decreases n - i,
    {
        proof {
            lemma_first_pos(s@, c, from as int);
        }
        if s.get_char(i) == c {
            proof {
                let r = first_pos(s@, c, from as int);
                if r < i as int {
                    assert(s@[r] != c);
                } else if r > i as int {
                    assert(s@[i as int] != c);
                }
            }
            return i;
        }
        i += 1;
    }
    proof {
        let r = first_pos(s@, c, from as int);
        if r < n as int {
            assert(s@[r] != c);
        }
    }
    n
}

/// The die size encoded in a hit dice text such as `1d8`: the digits between
/// the first `d` and the next `d` or the end, when they are non-empty, all
/// digits, and fit an `i64`.
pub open spec fn spec_die_size(s: Seq<char>) -> Option<int> {
    let i = first_pos(s, 'd', 0);
    if i == s.len() {
        None
    } else {
        let j = first_pos(s, 'd', i + 1);
        let t = s.subrange(i + 1, j);
        if t.len() > 0 && all_digits(t) && digits_val(t) <= i64::MAX {
            Some(digits_val(t))
        } else {
            None
        }
    }
}

/// Reads the die size out of a hit dice text.
pub fn hit_die_size(s: &str) -> (r: Option<i64>)
    ensures
        match r {
            Some(v) => spec_die_size(s@) == Some(v as int),
            None => spec_die_size(s@) is None,
        },
{
    let n = s.unicode_len();
    let i = find_char(s, 'd', 0);
    if i == n {
        return None;
    }
    proof {
        lemma_first_pos(s@, 'd', 0);
    }
    let j = find_char(s, 'd', i + 1);
    proof {
        lemma_first_pos(s@, 'd', i as int + 1);
    }
    parse_digits(s, i + 1, j)
}

} // verus!
