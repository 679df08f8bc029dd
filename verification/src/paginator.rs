//! Splitting a counted result set into numbered pages (`django.core.paginator`).

use vstd::prelude::*;
use crate::text::{nat_str, concat3, usize_to_string};

verus! {

/// A paginator over `count` items, `per_page` per page.
#[derive(Debug, Clone)]
pub struct Paginator {
    count: usize,
    per_page: usize,
    orphans: usize,
    allow_empty_first_page: bool,
}

/// One page of a paginator.
#[derive(Debug, Clone)]
pub struct Page {
    pub number: usize,
    pub has_previous: bool,
    pub has_next: bool,
    pub num_pages: usize,
    pub start_index: usize,
    pub end_index: usize,
    pub object_list: Vec<String>,
}

/// Number of pages for `count` items, `per_page` per page, where a last page
/// holding at most `orphans` items is merged into the page before it.
pub open spec fn spec_num_pages(count: nat, per_page: nat, orphans: nat) -> nat {
    if count == 0 {
        0
    } else {
        let pages = (count + per_page - 1) as nat / per_page;
        if pages == 0 {
            1
        } else if orphans > 0 && pages > 1 && count - (pages - 1) * per_page <= orphans {
            (pages - 1) as nat
        } else {
            pages
        }
    }
}

/// The message of an out-of-range page request.
pub open spec fn out_of_range_message(number: nat, n: nat) -> Seq<char> {
    "Page "@ + nat_str(number) + " out of range (1-"@ + nat_str(n) + ")"@
}

/// Every page that exists starts before the last item.
pub proof fn lemma_page_start_below_count(count: nat, per_page: nat, orphans: nat, number: nat)
    requires
        count > 0,
        per_page > 0,
        1 <= number <= spec_num_pages(count, per_page, orphans),
    ensures
        (number - 1) * per_page < count,
{
    let pages = (count + per_page - 1) as nat / per_page;
    let c = count as int;
    let p = per_page as int;
    let q = pages as int;
    let k = number as int;
    assert(q * p <= c + p - 1) by (nonlinear_arith)
        requires q == (c + p - 1) / p, p > 0, c + p - 1 >= 0;
    assert(q >= 1) by (nonlinear_arith)
        requires q == (c + p - 1) / p, p > 0, c >= 1;
    assert(spec_num_pages(count, per_page, orphans) <= pages);
    assert((k - 1) * p <= (q - 1) * p) by (nonlinear_arith)
        requires k <= q, p > 0, k >= 1;
    assert((q - 1) * p == q * p - p) by (nonlinear_arith);
}

impl Paginator {
    pub closed spec fn spec_count(&self) -> nat { self.count as nat }
    pub closed spec fn spec_per_page(&self) -> nat { self.per_page as nat }
    pub closed spec fn spec_orphans(&self) -> nat { self.orphans as nat }
    pub closed spec fn spec_allow_empty_first_page(&self) -> bool { self.allow_empty_first_page }

    /// The paginator can compute its page count without overflow or division by zero.
    pub open spec fn computable(&self) -> bool {
        self.spec_per_page() > 0 && self.spec_count() + self.spec_per_page() - 1 <= usize::MAX
    }

    /// The number of pages this paginator has.
    pub open spec fn pages(&self) -> nat {
        spec_num_pages(self.spec_count(), self.spec_per_page(), self.spec_orphans())
    }

    /// Page `number` exists: page 1 of an empty paginator that allows an
    /// empty first page, else a number in `1..=pages()`.
    pub open spec fn page_exists(&self, number: nat) -> bool {
        if self.spec_count() == 0 {
            self.spec_allow_empty_first_page() && number == 1
        } else {
            1 <= number <= self.pages()
        }
    }

    /// The index of the first item of page `number`.
    pub open spec fn page_start(&self, number: nat) -> int {
        if self.spec_count() == 0 { 0 } else { (number - 1) * self.spec_per_page() }
    }

    /// The index after the last item of page `number`: the last page runs to
    /// the end (it takes the merged orphans), every other page is full.
    pub open spec fn page_end(&self, number: nat) -> int {
        if self.spec_count() == 0 {
            0
        } else if number == self.pages() {
            self.spec_count() as int
        } else {
            (number * self.spec_per_page()) as int
        }
    }

    pub fn new(count: usize, per_page: usize) -> (p: Self)
        ensures
            p.spec_count() == count,
            p.spec_per_page() == per_page,
            p.spec_orphans() == 0,
            p.spec_allow_empty_first_page(),
    {
        Paginator { count, per_page, orphans: 0, allow_empty_first_page: true }
    }

    /// Sets the orphan limit: a last page holding at most `n` items is merged into the previous page.
    pub fn orphans(self, n: usize) -> (p: Self)
        ensures
            p.spec_count() == self.spec_count(),
            p.spec_per_page() == self.spec_per_page(),
            p.spec_orphans() == n,
            p.spec_allow_empty_first_page() == self.spec_allow_empty_first_page(),
    {
        Paginator { orphans: n, ..self }
    }

    /// Sets whether an empty paginator still has a (empty) first page.
    pub fn allow_empty_first_page(self, val: bool) -> (p: Self)
        ensures
            p.spec_count() == self.spec_count(),
            p.spec_per_page() == self.spec_per_page(),
            p.spec_orphans() == self.spec_orphans(),
            p.spec_allow_empty_first_page() == val,
    {
        Paginator { allow_empty_first_page: val, ..self }
    }

    pub fn num_pages(&self) -> (n: usize)
        requires
            self.computable(),
        ensures
            n == self.pages(),
    {
        if self.count == 0 {
            return 0;
        }
        let mut pages = (self.count + (self.per_page - 1)) / self.per_page;
        if pages == 0 {
            return 1;
        }
        if self.orphans > 0 && pages > 1 {
            proof {
                let c = self.count as int;
                let p = self.per_page as int;
                let q = pages as int;
                assert(q * p <= c + p - 1) by (nonlinear_arith)
                    requires q == (c + p - 1) / p, p > 0, c + p - 1 >= 0;
                assert((q - 1) * p <= c) by (nonlinear_arith)
                    requires q * p <= c + p - 1, p > 0, q >= 1;
            }
            let items_on_last_page = self.count - (pages - 1) * self.per_page;
            if items_on_last_page <= self.orphans {
                pages -= 1;
            }
        }
        pages
    }

    /// The page numbers `1..=num_pages`.
    pub fn page_range(&self) -> (r: Vec<usize>)
        requires
            self.computable(),
        ensures
            r@.len() == self.pages(),
            forall|i: int| 0 <= i < r@.len() ==> r@[i] == i + 1,
    {
        let n = self.num_pages();
        let mut r: Vec<usize> = Vec::new();
        let mut i: usize = 0;
        while i < n
            invariant
                i <= n,
                n == self.pages(),
                r@.len() == i,
                forall|k: int| 0 <= k < i ==> r@[k] == k + 1,
            decreases n - i,
        {
            r.push(i + 1);
            i = i + 1;
        }
        r
    }

    /// The page numbered `number` (1-based), or an error naming the valid
    /// range when there is no such page.
    pub fn page(&self, number: usize) -> (r: Result<Page, String>)
        requires
            self.computable(),
        ensures
            self.page_exists(number as nat) ==> r is Ok
                && r->Ok_0.number == number
                && r->Ok_0.has_previous == (number > 1)
                && r->Ok_0.has_next == (number < self.pages())
                && r->Ok_0.num_pages == (if self.spec_count() == 0 { 1 } else { self.pages() })
                && r->Ok_0.start_index == self.page_start(number as nat)
                && r->Ok_0.end_index == self.page_end(number as nat)
                && r->Ok_0.object_list@.len() == 0,
            !self.page_exists(number as nat) ==> r is Err
                && r->Err_0@ == out_of_range_message(number as nat, self.pages()),
    {
        let n = self.num_pages();
        let exists = if self.count == 0 {
            self.allow_empty_first_page && number == 1
        } else {
            number >= 1 && number <= n
        };
        if !exists {
            let head = concat3("Page ", usize_to_string(number).as_str(), " out of range (1-");
            let msg = concat3(head.as_str(), usize_to_string(n).as_str(), ")");
            return Err(msg);
        }
        if self.count == 0 {
            return Ok(Page {
                number: 1,
                has_previous: false,
                has_next: false,
                num_pages: 1,
                start_index: 0,
                end_index: 0,
                object_list: Vec::new(),
            });
        }
        proof {
            lemma_page_start_below_count(self.count as nat, self.per_page as nat, self.orphans as nat, number as nat);
            if number < n {
                lemma_page_start_below_count(self.count as nat, self.per_page as nat, self.orphans as nat, (number + 1) as nat);
            }
            let num = number as int;
            let p = self.per_page as int;
            assert((num - 1) * p >= 0) by (nonlinear_arith) requires num >= 1, p >= 0;
            assert(num * p >= 0) by (nonlinear_arith) requires num >= 1, p >= 0;
        }
        let start_index = (number - 1) * self.per_page;
        let end_index = if number == n { self.count } else { number * self.per_page };
        Ok(Page {
            number,
            has_previous: number > 1,
            has_next: number < n,
            num_pages: n,
            start_index,
            end_index,
            object_list: Vec::new(),
        })
    }

    pub fn count(&self) -> (c: usize)
        ensures
            c == self.spec_count(),
    {
        self.count
    }

    pub fn per_page(&self) -> (c: usize)
        ensures
            c == self.spec_per_page(),
    {
        self.per_page
    }

    /// The number of items on page `number`, or `None` when the page does not exist.
    pub fn page_items_count(&self, number: usize) -> (r: Option<usize>)
        requires
            self.computable(),
        ensures
            self.page_exists(number as nat) ==> r == Some((self.page_end(number as nat) - self.page_start(number as nat)) as usize),
            !self.page_exists(number as nat) ==> r is None,
    {
        let page = match self.page(number) {
            Ok(p) => p,
            Err(_) => return None,
        };
        proof {
            if self.count > 0 {
                law_pages_cover_items(*self);
                assert(self.page_start(number as nat) < self.page_end(number as nat));
            }
        }
        Some(page.end_index - page.start_index)
    }
}

/// The pages of a paginator with items cover them all, in order and without
/// gaps: page 1 starts at 0, each page ends where the next starts, the last
/// ends at `count`, every page holds at least one item, every page but the
/// last holds exactly `per_page`, and the last at most `per_page + orphans`.
pub proof fn lemma_pages_tile(count: nat, per_page: nat, orphans: nat)
    requires
        count > 0,
        per_page > 0,
    ensures
        ({
            let n = spec_num_pages(count, per_page, orphans);
            &&& n >= 1
            &&& (n - 1) * per_page < count
            &&& count - (n - 1) * per_page <= per_page + orphans
            &&& forall|k: int| 1 <= k < n ==> #[trigger] (k * per_page) < count
        }),
{
    let n = spec_num_pages(count, per_page, orphans);
    lemma_page_start_below_count(count, per_page, orphans, n);
    let pages = (count + per_page - 1) as nat / per_page;
    let c = count as int;
    let p = per_page as int;
    let q = pages as int;
    assert(q * p >= c) by (nonlinear_arith)
        requires q == (c + p - 1) / p, p > 0, c >= 1;
    assert(q >= 1) by (nonlinear_arith)
        requires q == (c + p - 1) / p, p > 0, c >= 1;
    assert((q - 1) * p == q * p - p) by (nonlinear_arith);
    if n == q - 1 {
        assert((n - 1) * p == (q - 1) * p - p) by (nonlinear_arith) requires n == q - 1;
    }
    assert forall|k: int| 1 <= k < n implies #[trigger] (k * per_page) < count by {
        lemma_page_start_below_count(count, per_page, orphans, (k + 1) as nat);
        assert(((k + 1) - 1) * p == k * p);
    }
}

/// Law: the pages of a paginator with items tile `0..count`.
pub proof fn law_pages_cover_items(p: Paginator)
    requires
        p.spec_count() > 0,
        p.spec_per_page() > 0,
    ensures
        p.pages() >= 1,
        p.page_start(1) == 0,
        p.page_end(p.pages()) == p.spec_count(),
        forall|k: nat| 1 <= k < p.pages() ==> #[trigger] p.page_end(k) == p.page_start(k + 1),
        forall|k: nat| 1 <= k <= p.pages() ==> p.page_start(k) < #[trigger] p.page_end(k),
        forall|k: nat| 1 <= k < p.pages() ==> #[trigger] p.page_end(k) - p.page_start(k) == p.spec_per_page(),
        p.page_end(p.pages()) - p.page_start(p.pages()) <= p.spec_per_page() + p.spec_orphans(),
{
    lemma_pages_tile(p.spec_count(), p.spec_per_page(), p.spec_orphans());
    let n = p.pages();
    let per = p.spec_per_page() as int;
    assert forall|k: nat| 1 <= k < n implies #[trigger] p.page_end(k) == p.page_start(k + 1) by {
        assert(((k + 1) - 1) * per == k * per);
    }
    assert forall|k: nat| 1 <= k <= n implies p.page_start(k) < #[trigger] p.page_end(k) by {
        if k < n {
            assert((k - 1) * per == k * per - per) by (nonlinear_arith);
        }
    }
    assert forall|k: nat| 1 <= k < n implies #[trigger] p.page_end(k) - p.page_start(k) == p.spec_per_page() by {
        assert((k - 1) * per == k * per - per) by (nonlinear_arith);
    }
    assert((0 as int) * per == 0);
}

} // verus!
