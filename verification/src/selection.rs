use vstd::prelude::*;

use crate::error::SqlError;
use crate::query::{
    build_page_query, compose_offset, page_count_for, page_limit, spec_offset_digits,
    spec_page_count, spec_page_limit, spec_page_query, SELECT_BATCH_SIZE,
};
use crate::session::SqlSession;
use crate::text::digits_value;
use vstd::math::min;

verus! {

/// A paged view over the result set of one `SELECT` statement: the total
/// number of matching rows is computed once, and each page is fetched by
/// rewriting the statement into a bounded `LIMIT`/`OFFSET` form.
pub struct Selection<'a> {
    pub session: &'a SqlSession,
    pub query: String,
    pub selection_size: u32,
    pub page_index: u32,
    pub page_count: u32,
}

/// The statement that fetches page `num` of `query`, given the selection's
/// size and page count, together with the composed offset. Fails only when
/// the query carries an `OFFSET` keyword whose digits are missing or do
/// not fit in 32 bits.
pub fn page_query_for(query: &str, selection_size: u32, page_count: u32, num: u32) -> (r: Result<
    String,
    SqlError,
>)
    requires
        page_count as nat == spec_page_count(selection_size as nat, SELECT_BATCH_SIZE as nat),
    ensures
        (match spec_offset_digits(query@) {
            None => r matches Ok(q) && q@ == spec_page_query(
                query@,
                spec_page_limit(
                    selection_size as nat,
                    page_count as nat,
                    num as nat,
                    SELECT_BATCH_SIZE as nat,
                ),
                (SELECT_BATCH_SIZE * num) as nat,
            ),
            Some((st, en)) => {
                if st < en && digits_value(query@.subrange(st, en)) <= u32::MAX {
                    r matches Ok(q) && q@ == spec_page_query(
                        query@,
                        spec_page_limit(
                            selection_size as nat,
                            page_count as nat,
                            num as nat,
                            SELECT_BATCH_SIZE as nat,
                        ),
                        (SELECT_BATCH_SIZE * num + digits_value(query@.subrange(st, en))) as nat,
                    )
                } else {
                    r matches Err(SqlError::QueryError(_))
                }
            },
        }),
{
    let query_limit = page_limit(selection_size, page_count, num);
    let offset = match compose_offset(query, num) {
        Ok(o) => o,
        Err(e) => {
            return Err(e);
        },
    };
    Ok(build_page_query(query, query_limit, offset))
}

impl<'a> Selection<'a> {
    /// The page count matches the selection size and the page index never
    /// runs past the page count.
    pub open spec fn wf(&self) -> bool {
        &&& self.page_count as nat == spec_page_count(
            self.selection_size as nat,
            SELECT_BATCH_SIZE as nat,
        )
        &&& self.page_index <= self.page_count
    }

    /// Create a paged view over `query`, counting its matching rows once.
    pub fn new(session: &'a SqlSession, query: String) -> (r: Result<Selection<'a>, SqlError>)
        ensures
            (match r {
                Ok(sel) => sel.wf() && sel.page_index == 0 && sel.query@ == query@
                    && sel.page_count as nat == spec_page_count(
                    sel.selection_size as nat,
                    SELECT_BATCH_SIZE as nat,
                ),
                Err(e) => e matches SqlError::QueryError(_),
            }),
            query@.len() == 0 ==> r is Err,
    {
        let selection_size = match session.get_selection_size(query.clone()) {
            Ok(n) => n,
            Err(e) => {
                return Err(e);
            },
        };
        let page_count = page_count_for(selection_size);
        Ok(Selection { session, query, selection_size, page_index: 0, page_count })
    }

    /// Fetch page `num`: reject a page number past the page count, rewrite
    /// the statement to the bounded form and run it.
    pub fn get_page(&mut self, num: u32) -> (r: Result<Vec<Vec<String>>, SqlError>)
        requires
            old(self).wf(),
        ensures
            final(self).wf(),
            final(self).query == old(self).query,
            final(self).selection_size == old(self).selection_size,
            final(self).page_count == old(self).page_count,
            final(self).session == old(self).session,
            r == Err::<Vec<Vec<String>>, SqlError>(SqlError::PageOutOfRange) <==> num > old(
                self,
            ).page_count,
            num > old(self).page_count ==> final(self).page_index == old(self).page_index,
            r is Ok ==> num <= old(self).page_count && final(self).page_index == num,
            r is Err ==> (r matches Err(SqlError::PageOutOfRange)) || (r matches Err(
                SqlError::QueryError(_),
            )),
            num <= old(self).page_count && (match spec_offset_digits(old(self).query@) {
                Some((st, en)) => !(st < en && digits_value(old(self).query@.subrange(st, en))
                    <= u32::MAX),
                None => false,
            }) ==> (r matches Err(SqlError::QueryError(_))) && final(self).page_index == old(
                self,
            ).page_index,
    {
        if num > self.page_count {
            return Err(SqlError::PageOutOfRange);
        }
        let rewritten = match page_query_for(
            self.query.as_str(),
            self.selection_size,
            self.page_count,
            num,
        ) {
            Ok(q) => q,
            Err(e) => {
                return Err(e);
            },
        };
        self.page_index = num;
        self.session.select(rewritten.as_str())
    }
}

// ---------------------------------------------------------------------------
// Laws of pagination
// ---------------------------------------------------------------------------
/// What `LIMIT limit OFFSET offset` leaves of a materialized result set.
pub open spec fn limited_rows<T>(rows: Seq<T>, limit: nat, offset: nat) -> Seq<T> {
    rows.subrange(
        min(offset as int, rows.len() as int),
        min((offset + limit) as int, rows.len() as int),
    )
}

/// The rows of page `num`, under the limits and offsets the engine emits:
/// offset `num * page`, limit `page` except on the last page.
pub open spec fn page_rows<T>(rows: Seq<T>, count: nat, num: nat, page: nat) -> Seq<T> {
    limited_rows(rows, spec_page_limit(rows.len(), count, num, page), num * page)
}

/// The first `k` pages, concatenated in order.
pub open spec fn pages_concat<T>(rows: Seq<T>, count: nat, k: nat, page: nat) -> Seq<T>
    decreases k,
{
    if k == 0 {
        Seq::empty()
    } else {
        pages_concat(rows, count, (k - 1) as nat, page) + page_rows(
            rows,
            count,
            (k - 1) as nat,
            page,
        )
    }
}

#[verifier::rlimit(50)]
#[verifier::spinoff_prover]
proof fn lemma_pages_prefix<T>(rows: Seq<T>, page: nat, k: nat)
    requires
        page > 0,
        k <= spec_page_count(rows.len(), page),
    ensures
        pages_concat(rows, spec_page_count(rows.len(), page), k, page) =~= rows.take(
            min((k * page) as int, rows.len() as int),
        ),
    decreases k,
{
    let len = rows.len();
    let count = spec_page_count(len, page);
    crate::query::lemma_page_count_bounds(len, page);
    if k == 0 {
        assert(rows.take(0) =~= Seq::<T>::empty());
    } else {
        lemma_pages_prefix(rows, page, (k - 1) as nat);
        let j = (k - 1) as nat;
        let o = j * page;
        assert(j * page <= (count - 1) * page && k * page <= count * page) by {
            vstd::arithmetic::mul::lemma_mul_inequality(j as int, count as int - 1, page as int);
            vstd::arithmetic::mul::lemma_mul_inequality(k as int, count as int, page as int);
        }
        assert(k * page == j * page + page) by {
            vstd::arithmetic::mul::lemma_mul_is_distributive_add_other_way(
                page as int,
                j as int,
                1,
            );
        }
        if j == count - 1 {
            // the last page: the limit is the remainder, which reaches the end
            assert(o < len);
            assert(page_rows(rows, count, j, page) =~= rows.subrange(o as int, len as int));
            assert(rows.take(min((j * page) as int, len as int)) + rows.subrange(
                o as int,
                len as int,
            ) =~= rows.take(len as int));
            assert(min((k * page) as int, len as int) == len as int);
            assert(pages_concat(rows, count, k, page) == pages_concat(rows, count, j, page)
                + page_rows(rows, count, j, page));
            assert(pages_concat(rows, count, k, page) =~= rows.take(
                min((k * page) as int, len as int),
            ));
        } else {
            // a full page strictly before the last
            assert(j < count - 1);
            assert(count >= 2);
            assert(j * page + page <= (count - 1) * page) by {
                vstd::arithmetic::mul::lemma_mul_inequality(j as int + 1, count as int - 1, page as int);
                vstd::arithmetic::mul::lemma_mul_is_distributive_add_other_way(
                    page as int,
                    j as int,
                    1,
                );
            }
            assert(len > 0) by {
                if len == 0 {
                    assert(count == 0);
                }
            }
            assert(o + page < len);
            assert(page_rows(rows, count, j, page) =~= rows.subrange(
                o as int,
                (o + page) as int,
            ));
            assert(rows.take(min((j * page) as int, len as int)) + rows.subrange(
                o as int,
                (o + page) as int,
            ) =~= rows.take((o + page) as int));
            assert(min((k * page) as int, len as int) == (o + page) as int);
            assert(pages_concat(rows, count, k, page) == pages_concat(rows, count, j, page)
                + page_rows(rows, count, j, page));
            assert(pages_concat(rows, count, k, page) =~= rows.take(
                min((k * page) as int, len as int),
            ));
        }
    }
}

/// Coverage law of pagination: for a result set of any size — zero rows
/// and exact multiples of the page size included — the concatenation of
/// all pages, in order, is exactly the unpaged result set, and the page
/// count is the least number of pages that holds it.
pub proof fn lemma_pages_cover<T>(rows: Seq<T>, page: nat)
    requires
        page > 0,
    ensures
        pages_concat(rows, spec_page_count(rows.len(), page), spec_page_count(rows.len(), page), page)
            =~= rows,
        spec_page_count(rows.len(), page) * page >= rows.len(),
        rows.len() > 0 ==> (spec_page_count(rows.len(), page) - 1) * page < rows.len(),
{
    let len = rows.len();
    let count = spec_page_count(len, page);
    crate::query::lemma_page_count_bounds(len, page);
    lemma_pages_prefix(rows, page, count);
    assert(min((count * page) as int, len as int) == len as int);
    assert(rows.take(len as int) =~= rows);
}

} // verus!
