use vstd::prelude::*;

verus! {

// ---------------------------------------------------------------------------
// Character classes
// ---------------------------------------------------------------------------
/// Whitespace as Rust's `char::is_whitespace` understands it: the Unicode
/// `White_Space` set.
pub open spec fn is_space(c: char) -> bool {
    let u = c as u32;
    ||| u == 0x09
    ||| u == 0x0A
    ||| u == 0x0B
    ||| u == 0x0C
    ||| u == 0x0D
    ||| u == 0x20
    ||| u == 0x85
    ||| u == 0xA0
    ||| u == 0x1680
    ||| (0x2000 <= u && u <= 0x200A)
    ||| u == 0x2028
    ||| u == 0x2029
    ||| u == 0x202F
    ||| u == 0x205F
    ||| u == 0x3000
}

/// ASCII decimal digit.
pub open spec fn is_digit(c: char) -> bool {
    48 <= c as u32 && c as u32 <= 57
}

/// Case-insensitive match of a statement character against a keyword
/// character, where the keyword is written in upper-case ASCII.
pub open spec fn ci_eq(c: char, k: char) -> bool {
    c == k || c as u32 == k as u32 + 32
}

pub fn space_char(c: char) -> (r: bool)
    ensures
        r == is_space(c),
{
    let u = c as u32;
    u == 0x09 || u == 0x0A || u == 0x0B || u == 0x0C || u == 0x0D || u == 0x20 || u == 0x85
        || u == 0xA0 || u == 0x1680 || (0x2000 <= u && u <= 0x200A) || u == 0x2028 || u == 0x2029
        || u == 0x202F || u == 0x205F || u == 0x3000
}

pub fn digit_char(c: char) -> (r: bool)
    ensures
        r == is_digit(c),
{
    let u = c as u32;
    48 <= u && u <= 57
}

// ---------------------------------------------------------------------------
// Keyword scanning
// ---------------------------------------------------------------------------
/// The keyword `kw` (upper-case ASCII) occurs, case-insensitively, at
/// character position `i` of `s`.
pub open spec fn kw_at(s: Seq<char>, kw: Seq<char>, i: int) -> bool {
    &&& 0 <= i
    &&& i + kw.len() <= s.len()
    &&& forall|j: int| 0 <= j < kw.len() ==> ci_eq(s[i + j], kw[j])
}

/// Does the keyword occur, case-insensitively, at character position `i`?
pub fn matches_at(s: &str, kw: &str, i: usize) -> (r: bool)
    requires
        i + kw@.len() <= s@.len(),
        s@.len() <= usize::MAX,
    ensures
        r == kw_at(s@, kw@, i as int),
{
    let m = kw.unicode_len();
    let mut j: usize = 0;
    while j < m
        invariant
            0 <= j <= m,
            m == kw@.len(),
            i + m <= s@.len(),
            s@.len() <= usize::MAX,
            forall|jj: int| 0 <= jj < j ==> ci_eq(s@[i + jj], kw@[jj]),
        decreases m - j,
    {
        let c = s.get_char(i + j);
        let k = kw.get_char(j);
        if !(c == k || (c as u32) == (k as u32) + 32) {
            return false;
        }
        j += 1;
    }
    true
}

/// Position of the rightmost case-insensitive occurrence of `kw` in `s`,
/// if there is one.
pub fn find_last_keyword(s: &str, kw: &str) -> (r: Option<usize>)
    requires
        kw@.len() >= 1,
    ensures
        match r {
            Some(i) => kw_at(s@, kw@, i as int) && (forall|j: int|
                i < j ==> !kw_at(s@, kw@, j)) && spec_last_kw(s@, kw@) == Some(i as int),
            None => (forall|j: int| !kw_at(s@, kw@, j)) && spec_last_kw(s@, kw@) is None,
        },
{
    proof {
        lemma_last_kw_from_props(s@, kw@, s@.len() + 1 - kw@.len());
        assert(forall|j: int| j + kw@.len() > s@.len() ==> !kw_at(s@, kw@, j));
    }
    let n = s.unicode_len();
    let m = kw.unicode_len();
    if m > n {
        return None;
    }
    let mut best: Option<usize> = None;
    let mut i: usize = 0;
    while i <= n - m
        invariant
            n == s@.len(),
            m == kw@.len(),
            1 <= m <= n,
            0 <= i <= n - m + 1,
            match best {
                Some(b) => kw_at(s@, kw@, b as int) && (forall|j: int|
                    b < j < i ==> !kw_at(s@, kw@, j)),
                None => forall|j: int| j < i ==> !kw_at(s@, kw@, j),
            },
        decreases n - i,
    {
        if matches_at(s, kw, i) {
            best = Some(i);
        }
        i += 1;
    }
    proof {
        lemma_last_kw_from_props(s@, kw@, s@.len() + 1 - kw@.len());
        assert(forall|j: int| j >= i ==> !kw_at(s@, kw@, j));
        match best {
            Some(b) => {
                if spec_last_kw(s@, kw@) != Some(b as int) {
                    assert(spec_last_kw(s@, kw@) is Some);
                    let bi = spec_last_kw(s@, kw@)->0;
                    assert(kw_at(s@, kw@, bi));
                    assert(kw_at(s@, kw@, b as int));
                    assert(false);
                }
            },
            None => {},
        }
    }
    best
}

/// Position of the leftmost case-insensitive occurrence of `kw` in `s`,
/// if there is one.
pub fn find_first_keyword(s: &str, kw: &str) -> (r: Option<usize>)
    requires
        kw@.len() >= 1,
    ensures
        match r {
            Some(i) => kw_at(s@, kw@, i as int) && (forall|j: int|
                0 <= j < i ==> !kw_at(s@, kw@, j)) && spec_first_kw(s@, kw@) == Some(i as int),
            None => (forall|j: int| !kw_at(s@, kw@, j)) && spec_first_kw(s@, kw@) is None,
        },
{
    proof {
        lemma_first_kw_from_props(s@, kw@, 0);
    }
    let n = s.unicode_len();
    let m = kw.unicode_len();
    if m > n {
        return None;
    }
    let mut i: usize = 0;
    while i <= n - m
        invariant
            n == s@.len(),
            m == kw@.len(),
            1 <= m <= n,
            0 <= i <= n - m + 1,
            forall|j: int| 0 <= j < i ==> !kw_at(s@, kw@, j),
        decreases n - i,
    {
        if matches_at(s, kw, i) {
            proof {
                lemma_first_kw_from_props(s@, kw@, 0);
                if spec_first_kw(s@, kw@) != Some(i as int) {
                    match spec_first_kw(s@, kw@) {
                        Some(fi) => {
                            assert(kw_at(s@, kw@, fi));
                            assert(kw_at(s@, kw@, i as int));
                            assert(false);
                        },
                        None => {
                            assert(kw_at(s@, kw@, i as int));
                            assert(false);
                        },
                    }
                }
            }
            return Some(i);
        }
        i += 1;
    }
    proof {
        lemma_first_kw_from_props(s@, kw@, 0);
        assert(forall|j: int| j >= i ==> !kw_at(s@, kw@, j));
    }
    None
}

/// Rightmost occurrence of `kw` strictly before position `from`.
pub open spec fn spec_last_kw_from(s: Seq<char>, kw: Seq<char>, from: int) -> Option<int>
    decreases from,
{
    if from <= 0 {
        None
    } else if kw_at(s, kw, from - 1) {
        Some(from - 1)
    } else {
        spec_last_kw_from(s, kw, from - 1)
    }
}

/// Rightmost occurrence of `kw` in `s`.
pub open spec fn spec_last_kw(s: Seq<char>, kw: Seq<char>) -> Option<int> {
    spec_last_kw_from(s, kw, s.len() + 1 - kw.len())
}

/// Leftmost occurrence of `kw` at or after position `from`.
pub open spec fn spec_first_kw_from(s: Seq<char>, kw: Seq<char>, from: int) -> Option<int>
    decreases s.len() - from,
{
    if !(0 <= from && from + kw.len() <= s.len()) {
        None
    } else if kw_at(s, kw, from) {
        Some(from)
    } else {
        spec_first_kw_from(s, kw, from + 1)
    }
}

/// Leftmost occurrence of `kw` in `s`.
pub open spec fn spec_first_kw(s: Seq<char>, kw: Seq<char>) -> Option<int> {
    spec_first_kw_from(s, kw, 0)
}

pub proof fn lemma_last_kw_from_props(s: Seq<char>, kw: Seq<char>, from: int)
    ensures
        match spec_last_kw_from(s, kw, from) {
            Some(i) => 0 <= i < from && kw_at(s, kw, i) && (forall|j: int|
                i < j < from ==> !kw_at(s, kw, j)),
            None => forall|j: int| 0 <= j < from ==> !kw_at(s, kw, j),
        },
    decreases from,
{
    if from > 0 && !kw_at(s, kw, from - 1) {
        lemma_last_kw_from_props(s, kw, from - 1);
    }
}

pub proof fn lemma_first_kw_from_props(s: Seq<char>, kw: Seq<char>, from: int)
    requires
        0 <= from,
    ensures
        match spec_first_kw_from(s, kw, from) {
            Some(i) => from <= i && kw_at(s, kw, i) && (forall|j: int|
                from <= j < i ==> !kw_at(s, kw, j)),
            None => forall|j: int| from <= j ==> !kw_at(s, kw, j),
        },
    decreases s.len() - from,
{
    if 0 <= from && from + kw.len() <= s.len() && !kw_at(s, kw, from) {
        lemma_first_kw_from_props(s, kw, from + 1);
    }
}

// ---------------------------------------------------------------------------
// Space and digit runs
// ---------------------------------------------------------------------------
/// First position at or after `from` that does not hold a space.
pub open spec fn spec_skip_spaces(s: Seq<char>, from: int) -> int
    decreases s.len() - from,
{
    if from < s.len() && 0 <= from && is_space(s[from]) {
        spec_skip_spaces(s, from + 1)
    } else {
        from
    }
}

pub fn skip_spaces(s: &str, from: usize) -> (r: usize)
    requires
        from <= s@.len(),
    ensures
        r == spec_skip_spaces(s@, from as int),
        from <= r <= s@.len(),
        forall|k: int| from <= k < r ==> is_space(s@[k]),
{
    let n = s.unicode_len();
    let mut i: usize = from;
    while i < n && space_char(s.get_char(i))
        invariant
            from <= i <= n,
            n == s@.len(),
            spec_skip_spaces(s@, from as int) == spec_skip_spaces(s@, i as int),
            forall|k: int| from <= k < i ==> is_space(s@[k]),
        decreases n - i,
    {
        i += 1;
    }
    i
}

/// First position at or after `from` that does not hold a digit.
pub open spec fn spec_digit_run_end(s: Seq<char>, from: int) -> int
    decreases s.len() - from,
{
    if from < s.len() && 0 <= from && is_digit(s[from]) {
        spec_digit_run_end(s, from + 1)
    } else {
        from
    }
}

pub fn digit_run_end(s: &str, from: usize) -> (r: usize)
    requires
        from <= s@.len(),
    ensures
        r == spec_digit_run_end(s@, from as int),
        from <= r <= s@.len(),
        forall|k: int| from <= k < r ==> is_digit(s@[k]),
{
    let n = s.unicode_len();
    let mut i: usize = from;
    while i < n && digit_char(s.get_char(i))
        invariant
            from <= i <= n,
            n == s@.len(),
            spec_digit_run_end(s@, from as int) == spec_digit_run_end(s@, i as int),
            forall|k: int| from <= k < i ==> is_digit(s@[k]),
        decreases n - i,
    {
        i += 1;
    }
    i
}

// ---------------------------------------------------------------------------
// Decimal numbers
// ---------------------------------------------------------------------------
/// Numeric value of a decimal digit; other characters count as zero.
pub open spec fn digit_val(c: char) -> nat {
    if is_digit(c) {
        (c as u32 - 48) as nat
    } else {
        0
    }
}

/// Numeric value of a sequence of decimal digits, most significant first.
pub open spec fn digits_value(s: Seq<char>) -> nat
    decreases s.len(),
{
    if s.len() == 0 {
        0
    } else {
        digits_value(s.drop_last()) * 10 + digit_val(s.last())
    }
}

proof fn lemma_digits_value_nonneg_last(s: Seq<char>)
    requires
        s.len() > 0,
        forall|k: int| 0 <= k < s.len() ==> is_digit(s[k]),
    ensures
        digits_value(s) >= digits_value(s.drop_last()),
{
    assert(is_digit(s.last()));
}

/// Extending a digit run never shrinks its value.
proof fn lemma_digits_value_prefix(s: Seq<char>, i: int, j: int)
    requires
        0 <= i <= j <= s.len(),
        forall|k: int| 0 <= k < s.len() ==> is_digit(s[k]),
    ensures
        digits_value(s.take(i)) <= digits_value(s.take(j)),
    decreases j - i,
{
    if i < j {
        lemma_digits_value_prefix(s, i, j - 1);
        let t = s.take(j);
        assert(forall|k: int| 0 <= k < t.len() ==> is_digit(t[k]));
        lemma_digits_value_nonneg_last(t);
        assert(t.drop_last() =~= s.take(j - 1));
    }
}

/// Parse the digit run `s[from..to]` as a `u32`; `None` exactly when the
/// value does not fit.
pub fn parse_digits(s: &str, from: usize, to: usize) -> (r: Option<u32>)
    requires
        from <= to <= s@.len(),
        forall|k: int| from <= k < to ==> is_digit(s@[k]),
    ensures
        match r {
            Some(v) => v as nat == digits_value(s@.subrange(from as int, to as int)),
            None => digits_value(s@.subrange(from as int, to as int)) > u32::MAX,
        },
{
    let ghost run = s@.subrange(from as int, to as int);
    proof {
        assert(forall|k: int| 0 <= k < run.len() ==> is_digit(run[k]));
    }
    let mut acc: u64 = 0;
    let mut i: usize = from;
    while i < to
        invariant
            from <= i <= to <= s@.len(),
            run == s@.subrange(from as int, to as int),
            forall|k: int| 0 <= k < run.len() ==> is_digit(run[k]),
            acc as nat == digits_value(run.take(i - from)),
            acc <= u32::MAX,
        decreases to - i,
    {
        let c = s.get_char(i);
        proof {
            assert(run[i - from] == s@[i as int]);
            assert(is_digit(s@[i as int]));
        }
        let d: u64 = (c as u32 - 48) as u64;
        let next: u64 = acc * 10 + d;
        proof {
            assert(run.take(i + 1 - from).drop_last() =~= run.take(i - from));
            assert(run.take(i + 1 - from).last() == run[i - from]);
            assert(next as nat == digits_value(run.take(i + 1 - from)));
        }
        if next > 0xFFFF_FFFF {
            proof {
                lemma_digits_value_prefix(run, i + 1 - from, run.len() as int);
                assert(run.take(run.len() as int) =~= run);
            }
            return None;
        }
        acc = next;
        i += 1;
    }
    proof {
        assert(run.take(run.len() as int) =~= run);
    }
    Some(acc as u32)
}

/// Decimal rendering of a digit `0 <= d <= 9`.
pub open spec fn spec_digit_char(d: int) -> char {
    if d == 0 {
        '0'
    } else if d == 1 {
        '1'
    } else if d == 2 {
        '2'
    } else if d == 3 {
        '3'
    } else if d == 4 {
        '4'
    } else if d == 5 {
        '5'
    } else if d == 6 {
        '6'
    } else if d == 7 {
        '7'
    } else if d == 8 {
        '8'
    } else {
        '9'
    }
}

fn digit_to_char(d: u64) -> (c: char)
    requires
        d < 10,
    ensures
        c == spec_digit_char(d as int),
{
    if d == 0 {
        '0'
    } else if d == 1 {
        '1'
    } else if d == 2 {
        '2'
    } else if d == 3 {
        '3'
    } else if d == 4 {
        '4'
    } else if d == 5 {
        '5'
    } else if d == 6 {
        '6'
    } else if d == 7 {
        '7'
    } else if d == 8 {
        '8'
    } else {
        '9'
    }
}

/// Decimal rendering of a natural number, most significant digit first.
pub open spec fn dec_str(n: nat) -> Seq<char>
    decreases n,
{
    if n < 10 {
        seq![spec_digit_char(n as int)]
    } else {
        dec_str(n / 10).push(spec_digit_char((n % 10) as int))
    }
}

/// Render `n` in decimal.
pub fn u64_to_string(n: u64) -> (r: String)
    ensures
        r@ == dec_str(n as nat),
    decreases n,
{
    if n < 10 {
        let mut v: Vec<char> = Vec::new();
        v.push(digit_to_char(n));
        let r = chars_to_string(&v);
        proof {
            assert(r@ =~= dec_str(n as nat));
        }
        r
    } else {
        let front = u64_to_string(n / 10);
        let mut v: Vec<char> = Vec::new();
        v.push(digit_to_char(n % 10));
        let tail = chars_to_string(&v);
        let r = front.concat(tail.as_str());
        proof {
            assert(r@ =~= dec_str(n as nat));
        }
        r
    }
}

// ---------------------------------------------------------------------------
// Conversions between strings and character vectors
// ---------------------------------------------------------------------------
/// The characters of `s`, in order.
pub fn string_to_chars(s: &str) -> (r: Vec<char>)
    ensures
        r@ == s@,
{
    let n = s.unicode_len();
    let mut v: Vec<char> = Vec::new();
    let mut i: usize = 0;
    while i < n
        invariant
            0 <= i <= n,
            n == s@.len(),
            v@ =~= s@.take(i as int),
        decreases n - i,
    {
        v.push(s.get_char(i));
        i += 1;
    }
    proof {
        assert(v@ =~= s@);
    }
    v
}

/// Relies on `String`'s `FromIterator` over characters: collecting the
/// characters of `v` yields the string whose characters are exactly `v`.
#[verifier::external_body]
pub fn chars_to_string(v: &Vec<char>) -> (r: String)
    ensures
        r@ == v@,
{
    v.iter().collect()
}

// ---------------------------------------------------------------------------
// Trailing trim
// ---------------------------------------------------------------------------
/// `s` with its trailing whitespace removed.
pub open spec fn spec_trim_end(s: Seq<char>) -> Seq<char>
    decreases s.len(),
{
    if s.len() > 0 && is_space(s.last()) {
        spec_trim_end(s.drop_last())
    } else {
        s
    }
}

/// Remove trailing whitespace.
pub fn trim_end_spaces(s: &str) -> (r: String)
    ensures
        r@ == spec_trim_end(s@),
{
    let mut v = string_to_chars(s);
    while v.len() > 0 && space_char(v[v.len() - 1])
        invariant
            spec_trim_end(v@) == spec_trim_end(s@),
        decreases v.len(),
    {
        let ghost before = v@;
        v.pop();
        proof {
            assert(v@ =~= before.drop_last());
            assert(spec_trim_end(before) == spec_trim_end(v@));
        }
    }
    proof {
        assert(spec_trim_end(v@) == v@);
    }
    chars_to_string(&v)
}

} // verus!
