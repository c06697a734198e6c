use vstd::prelude::*;

use crate::error::SqlError;
use crate::text::{
    dec_str, digit_run_end, digits_value, find_first_keyword, find_last_keyword, is_space, kw_at,
    matches_at, parse_digits, skip_spaces, spec_digit_run_end, spec_first_kw, spec_last_kw,
    spec_skip_spaces, u64_to_string,
};

verus! {

/// Rows per page: a `SELECT` never materializes more than this many rows
/// at a time.
pub const SELECT_BATCH_SIZE: u32 = 500;

pub open spec fn select_kw() -> Seq<char> {
    seq!['S', 'E', 'L', 'E', 'C', 'T']
}

pub open spec fn limit_kw() -> Seq<char> {
    seq!['L', 'I', 'M', 'I', 'T']
}

pub open spec fn offset_kw() -> Seq<char> {
    seq!['O', 'F', 'F', 'S', 'E', 'T']
}

pub open spec fn from_kw() -> Seq<char> {
    seq!['F', 'R', 'O', 'M']
}

// ---------------------------------------------------------------------------
// Statement classification
// ---------------------------------------------------------------------------
/// A statement is a read exactly when its first whitespace-delimited token
/// is `SELECT`, in any letter case.
pub open spec fn is_select_query(s: Seq<char>) -> bool {
    let i = spec_skip_spaces(s, 0);
    &&& kw_at(s, select_kw(), i)
    &&& (i + 6 == s.len() || is_space(s[i + 6]))
}

/// Decide whether a statement is a read (`SELECT`) or a write.
pub fn is_select(query: &str) -> (r: bool)
    ensures
        r == is_select_query(query@),
{
    proof {
        reveal_strlit("SELECT");
        assert("SELECT"@ =~= select_kw());
    }
    let n = query.unicode_len();
    let i = skip_spaces(query, 0);
    if n - i < 6 {
        return false;
    }
    if !matches_at(query, "SELECT", i) {
        return false;
    }
    if i + 6 == n {
        return true;
    }
    crate::text::space_char(query.get_char(i + 6))
}

// ---------------------------------------------------------------------------
// The counting form of a query
// ---------------------------------------------------------------------------
/// The statement that counts the rows the query would match: its column
/// list is replaced by `COUNT(*)`, keeping everything from the first
/// `FROM` keyword on. `None` when the query has no `FROM` clause.
pub open spec fn spec_count_query(s: Seq<char>) -> Option<Seq<char>> {
    match spec_first_kw(s, from_kw()) {
        Some(i) => Some("SELECT COUNT(*) "@ + s.skip(i)),
        None => None,
    }
}

/// Build the counting form of `query`.
pub fn count_query(query: &str) -> (r: Option<String>)
    ensures
        match r {
            Some(q) => spec_count_query(query@) == Some(q@),
            None => spec_count_query(query@) is None,
        },
{
    proof {
        reveal_strlit("FROM");
        assert("FROM"@ =~= from_kw());
    }
    match find_first_keyword(query, "FROM") {
        Some(i) => {
            let n = query.unicode_len();
            let tail = query.substring_char(i, n);
            let prefix = String::from_str("SELECT COUNT(*) ");
            let q = prefix.concat(tail);
            proof {
                assert(query@.subrange(i as int, n as int) =~= query@.skip(i as int));
            }
            Some(q)
        },
        None => None,
    }
}

// ---------------------------------------------------------------------------
// Page arithmetic
// ---------------------------------------------------------------------------
/// Number of pages needed for `size` rows at `page` rows per page:
/// `ceil(size / page)`.
pub open spec fn spec_page_count(size: nat, page: nat) -> nat
    recommends
        page > 0,
{
    ((size + page - 1) / page as int) as nat
}

/// Pages needed for a selection of `selection_size` rows.
pub fn page_count_for(selection_size: u32) -> (r: u32)
    ensures
        r as nat == spec_page_count(selection_size as nat, SELECT_BATCH_SIZE as nat),
{
    let q = selection_size / SELECT_BATCH_SIZE;
    let rem = selection_size % SELECT_BATCH_SIZE;
    if rem == 0 {
        proof {
            lemma_ceil_division(selection_size as nat, SELECT_BATCH_SIZE as nat);
        }
        q
    } else {
        proof {
            lemma_ceil_division(selection_size as nat, SELECT_BATCH_SIZE as nat);
        }
        q + 1
    }
}

/// `ceil(size / page)` agrees with the quotient-and-remainder form.
proof fn lemma_ceil_division(size: nat, page: nat)
    requires
        page > 0,
    ensures
        spec_page_count(size, page) == size / page + (if size % page == 0 {
            0int
        } else {
            1int
        }),
{
    vstd::arithmetic::div_mod::lemma_fundamental_div_mod(size as int, page as int);
    let q = size as int / page as int;
    let r = size as int % page as int;
    if r == 0 {
        assert((size + page - 1) as int == page as int * q + (page - 1));
        assert(((size + page - 1) as int) / page as int == q) by {
            vstd::arithmetic::div_mod::lemma_div_multiples_vanish_fancy(
                q,
                (page - 1) as int,
                page as int,
            );
        }
    } else {
        assert((size + page - 1) as int == page as int * (q + 1) + (r - 1)) by {
            vstd::arithmetic::mul::lemma_mul_is_distributive_add(page as int, q, 1);
        }
        assert(((size + page - 1) as int) / page as int == q + 1) by {
            vstd::arithmetic::div_mod::lemma_div_multiples_vanish_fancy(
                q + 1,
                r - 1,
                page as int,
            );
        }
    }
}

/// The page count covers the whole selection, and all pages before the
/// last are full.
pub proof fn lemma_page_count_bounds(size: nat, page: nat)
    requires
        page > 0,
    ensures
        spec_page_count(size, page) * page >= size,
        size > 0 ==> (spec_page_count(size, page) - 1) * page < size,
        size == 0 ==> spec_page_count(size, page) == 0,
{
    let c = spec_page_count(size, page) as int;
    vstd::arithmetic::div_mod::lemma_fundamental_div_mod((size + page - 1) as int, page as int);
    let r = (size + page - 1) as int % page as int;
    assert((size + page - 1) as int == page * c + r);
    assert(c * page == page * c) by {
        vstd::arithmetic::mul::lemma_mul_is_commutative(c, page as int);
    }
    assert((c - 1) * page == page * c - page) by {
        vstd::arithmetic::mul::lemma_mul_is_distributive_sub_other_way(page as int, c, 1);
    }
    if size == 0 {
        vstd::arithmetic::div_mod::lemma_basic_div_specific_divisor(page as int);
    }
}

/// Rows the rewritten statement asks for on page `num`: the page size for
/// every page but the last, and the remainder on the last.
pub open spec fn spec_page_limit(size: nat, count: nat, num: nat, page: nat) -> nat {
    if count > 0 && num == count - 1 {
        (size - (count - 1) * page) as nat
    } else {
        page
    }
}

/// Compute the row limit of page `num`.
pub fn page_limit(selection_size: u32, page_count: u32, num: u32) -> (r: u32)
    requires
        page_count as nat == spec_page_count(selection_size as nat, SELECT_BATCH_SIZE as nat),
    ensures
        r as nat == spec_page_limit(
            selection_size as nat,
            page_count as nat,
            num as nat,
            SELECT_BATCH_SIZE as nat,
        ),
{
    proof {
        lemma_page_count_bounds(selection_size as nat, SELECT_BATCH_SIZE as nat);
    }
    if page_count > 0 && num == page_count - 1 {
        selection_size - (page_count - 1) * SELECT_BATCH_SIZE
    } else {
        SELECT_BATCH_SIZE
    }
}

// ---------------------------------------------------------------------------
// User-supplied OFFSET
// ---------------------------------------------------------------------------
/// Where the digits of a user-written `OFFSET` clause sit: the span after
/// the rightmost `OFFSET` keyword, past any spaces. `None` when the query
/// has no `OFFSET` keyword.
pub open spec fn spec_offset_digits(s: Seq<char>) -> Option<(int, int)> {
    match spec_last_kw(s, offset_kw()) {
        Some(i) => {
            let st = spec_skip_spaces(s, i + 6);
            Some((st, spec_digit_run_end(s, st)))
        },
        None => None,
    }
}

/// The offset the user wrote into the query, if any: the digits after the
/// rightmost `OFFSET` keyword. An `OFFSET` keyword without digits, or with
/// a value over `u32::MAX`, is reported as a `QueryError`.
pub fn extract_user_offset(query: &str) -> (r: Result<u32, SqlError>)
    ensures
        (match spec_offset_digits(query@) {
            None => r == Ok::<u32, SqlError>(0u32),
            Some((st, en)) => {
                if st < en && digits_value(query@.subrange(st, en)) <= u32::MAX {
                    r matches Ok(v) && v as nat == digits_value(query@.subrange(st, en))
                } else {
                    r matches Err(SqlError::QueryError(_))
                }
            },
        }),
{
    proof {
        reveal_strlit("OFFSET");
        assert("OFFSET"@ =~= offset_kw());
    }
    let n = query.unicode_len();
    match find_last_keyword(query, "OFFSET") {
        None => Ok(0),
        Some(i) => {
            proof {
                assert(i + 6 <= n);
            }
            let st = skip_spaces(query, i + 6);
            let en = digit_run_end(query, st);
            if st == en {
                return Err(
                    SqlError::QueryError(
                        String::from_str("No digits follow the OFFSET keyword"),
                    ),
                );
            }
            match parse_digits(query, st, en) {
                Some(v) => Ok(v),
                None => Err(
                    SqlError::QueryError(
                        String::from_str("The user-supplied OFFSET does not fit in 32 bits"),
                    ),
                ),
            }
        },
    }
}

/// The offset of page `num`, composed additively with any offset the user
/// wrote into the query.
pub fn compose_offset(query: &str, num: u32) -> (r: Result<u64, SqlError>)
    ensures
        (match spec_offset_digits(query@) {
            None => r == Ok::<u64, SqlError>((SELECT_BATCH_SIZE * num) as u64),
            Some((st, en)) => {
                if st < en && digits_value(query@.subrange(st, en)) <= u32::MAX {
                    r matches Ok(v) && v == SELECT_BATCH_SIZE * num + digits_value(
                        query@.subrange(st, en),
                    )
                } else {
                    r matches Err(SqlError::QueryError(_))
                }
            },
        }),
{
    match extract_user_offset(query) {
        Ok(user) => Ok((SELECT_BATCH_SIZE as u64) * (num as u64) + (user as u64)),
        Err(e) => Err(e),
    }
}

// ---------------------------------------------------------------------------
// Injection point and the rewritten statement
// ---------------------------------------------------------------------------
/// Characters that may trail a statement: whitespace and the terminating
/// semicolon.
pub open spec fn is_tail_char(c: char) -> bool {
    is_space(c) || c == ';'
}

/// Length of the statement once trailing whitespace and semicolons are
/// dropped.
pub open spec fn spec_stmt_end(s: Seq<char>) -> int
    decreases s.len(),
{
    if s.len() > 0 && is_tail_char(s.last()) {
        spec_stmt_end(s.drop_last())
    } else {
        s.len() as int
    }
}

fn tail_char_at(s: &str, i: usize) -> (r: bool)
    requires
        1 <= i <= s@.len(),
    ensures
        r == is_tail_char(s@[i - 1]),
{
    let c = s.get_char(i - 1);
    crate::text::space_char(c) || c == ';'
}

fn stmt_end(s: &str) -> (r: usize)
    ensures
        r == spec_stmt_end(s@),
        r <= s@.len(),
{
    let n = s.unicode_len();
    let mut i: usize = n;
    proof {
        assert(s@.take(n as int) =~= s@);
    }
    while i > 0 && tail_char_at(s, i)
        invariant
            0 <= i <= n,
            n == s@.len(),
            spec_stmt_end(s@.take(i as int)) == spec_stmt_end(s@),
        decreases i,
    {
        proof {
            assert(s@.take(i as int).last() == s@[i - 1]);
            assert(s@.take(i as int).drop_last() =~= s@.take(i - 1));
        }
        i -= 1;
    }
    proof {
        if i == 0 {
            assert(s@.take(0) =~= Seq::<char>::empty());
        } else {
            assert(s@.take(i as int).last() == s@[i - 1]);
        }
        assert(spec_stmt_end(s@.take(i as int)) == i as int);
    }
    i
}

/// Where the pagination clause is injected: at the rightmost `LIMIT`
/// keyword if the query has one (replacing the user's clause text from
/// there on), otherwise just before the end of the statement.
pub open spec fn spec_injection_point(s: Seq<char>) -> int {
    match spec_last_kw(s, limit_kw()) {
        Some(i) => i,
        None => spec_stmt_end(s),
    }
}

/// The statement rewritten to fetch one page: everything up to the
/// injection point, followed by the bounded `LIMIT`/`OFFSET` clause.
pub open spec fn spec_page_query(s: Seq<char>, limit: nat, offset: nat) -> Seq<char> {
    s.take(spec_injection_point(s)) + " LIMIT "@ + dec_str(limit) + " OFFSET "@ + dec_str(offset)
}

/// Rewrite `query` to fetch exactly `query_limit` rows starting at row
/// `offset`.
pub fn build_page_query(query: &str, query_limit: u32, offset: u64) -> (r: String)
    ensures
        r@ == spec_page_query(query@, query_limit as nat, offset as nat),
{
    proof {
        reveal_strlit("LIMIT");
        assert("LIMIT"@ =~= limit_kw());
    }
    let inj: usize = match find_last_keyword(query, "LIMIT") {
        Some(i) => i,
        None => stmt_end(query),
    };
    let prefix = query.substring_char(0, inj);
    proof {
        assert(query@.subrange(0, inj as int) =~= query@.take(inj as int));
    }
    let mut out = String::from_str(prefix);
    out.append(" LIMIT ");
    let limit_text = u64_to_string(query_limit as u64);
    out.append(limit_text.as_str());
    out.append(" OFFSET ");
    let offset_text = u64_to_string(offset);
    out.append(offset_text.as_str());
    out
}

} // verus!
