use vstd::prelude::*;

verus! {

/// One page of a list, with the numbers that say where it stands.
#[derive(Clone, Debug, PartialEq, Eq)]
pub struct PagedResponse<T> {
    pub page: usize,
    pub limit: usize,
    pub total: usize,
    pub number_of_pages: usize,
    pub data: Vec<T>,
}

/// The number of items on a full page: the limit asked for, or the whole
/// list where the limit is beyond it.
pub open spec fn page_size(total: nat, limit: nat) -> nat {
    if limit >= total {
        total
    } else {
        limit
    }
}

/// The number of pages of a list of `total` items: `total` divided by the
/// size of a page, rounded up. No pages where a page holds nothing.
pub open spec fn page_count(total: nat, limit: nat) -> nat {
    let size = page_size(total, limit);
    if size == 0 {
        0
    } else if total % size == 0 {
        total / size
    } else {
        total / size + 1
    }
}

/// The page that is handed out when page number `page` is asked for: the
/// page asked for, or the last one where the number is beyond it. Pages are
/// counted from one; page zero is no page.
pub open spec fn page_shown(total: nat, limit: nat, page: nat) -> nat {
    if page >= page_count(total, limit) {
        page_count(total, limit)
    } else {
        page
    }
}

/// Where the page that is handed out starts in the list.
pub open spec fn page_start(total: nat, limit: nat, page: nat) -> int {
    let shown = page_shown(total, limit, page);
    if shown == 0 {
        0
    } else {
        (shown - 1) * page_size(total, limit)
    }
}

/// Where the page that is handed out ends in the list. The last page ends
/// with the list.
pub open spec fn page_end(total: nat, limit: nat, page: nat) -> int {
    let shown = page_shown(total, limit, page);
    if shown == 0 {
        0
    } else if shown == page_count(total, limit) {
        total as int
    } else {
        (shown * page_size(total, limit)) as int
    }
}

/// The four numbers that a page reports: its own number, the limit, the
/// number of items in all, and the number of pages.
pub open spec fn page_numbers(total: nat, limit: nat, page: nat) -> (nat, nat, nat, nat) {
    if page == 0 {
        (0, limit, total, 0)
    } else {
        (
            page_shown(total, limit, page),
            page_size(total, limit),
            total,
            page_count(total, limit),
        )
    }
}

/// The items of the page that is handed out.
pub open spec fn page_items<T>(data: Seq<T>, limit: nat, page: nat) -> Seq<T> {
    if page == 0 {
        Seq::<T>::empty()
    } else {
        data.subrange(page_start(data.len(), limit, page), page_end(data.len(), limit, page))
    }
}

/// The page that is handed out lies within the list.
pub proof fn lemma_page_range(total: nat, limit: nat, page: nat)
    ensures
        0 <= page_start(total, limit, page) <= page_end(total, limit, page) <= total,
{
    let size = page_size(total, limit);
    let count = page_count(total, limit);
    let shown = page_shown(total, limit, page);
    if shown != 0 {
        lemma_page_bounds(total, limit, page);
        assert(0 <= (shown - 1) * size <= (count - 1) * size && (shown < count ==> shown * size
            <= (count - 1) * size) && shown * size == (shown - 1) * size + size)
            by (nonlinear_arith)
            requires
                1 <= shown <= count,
                size > 0,
        ;
    }
}

proof fn lemma_page_bounds(total: nat, limit: nat, page: nat)
    requires
        page_size(total, limit) > 0,
    ensures
        page_count(total, limit) >= 1,
        (page_count(total, limit) - 1) * page_size(total, limit) < total,
        page_count(total, limit) * page_size(total, limit) >= total,
        page_count(total, limit) <= total,
{
    let size = page_size(total, limit);
    let count = page_count(total, limit);
    assert(count >= 1 && (count - 1) * size < total && count * size >= total && count <= total)
        by (nonlinear_arith)
        requires
            0 < size <= total,
            count == if total % size == 0 {
                total / size
            } else {
                total / size + 1
            },
    ;
}

/// Hands out one page of a list. Pages are counted from one and hold
/// `limit` items, the last one what is left; a page number beyond the last
/// gives the last page. Page zero gives no items and counts no pages.
pub fn get_paged_data<T>(data: Vec<T>, limit: usize, page: usize) -> (r: PagedResponse<T>)
    ensures
        (r.page as nat, r.limit as nat, r.total as nat, r.number_of_pages as nat) == page_numbers(
            data@.len(),
            limit as nat,
            page as nat,
        ),
        r.data@ == page_items(data@, limit as nat, page as nat),
{
    let total = data.len();
    if page == 0 {
        let none: Vec<T> = Vec::new();
        assert(none@ =~= Seq::<T>::empty());
        return PagedResponse { page, limit, total, number_of_pages: 0, data: none };
    }
    let size = if limit >= total {
        total
    } else {
        limit
    };
    if size == 0 {
        let none: Vec<T> = Vec::new();
        assert(none@ =~= data@.subrange(0, 0));
        return PagedResponse { page: 0, limit: size, total, number_of_pages: 0, data: none };
    }
    proof {
        lemma_page_bounds(total as nat, limit as nat, page as nat);
    }
    let number_of_pages = if total % size == 0 {
        total / size
    } else {
        total / size + 1
    };
    let shown = if page >= number_of_pages {
        number_of_pages
    } else {
        page
    };
    assert((shown - 1) * size <= (number_of_pages - 1) * size && (shown < number_of_pages ==> shown
        * size <= (number_of_pages - 1) * size) && shown * size == (shown - 1) * size + size)
        by (nonlinear_arith)
        requires
            1 <= shown <= number_of_pages,
            size > 0,
    ;
    let start = (shown - 1) * size;
    let end = if shown == number_of_pages {
        total
    } else {
        start + size
    };
    let ghost all = data@;
    let mut out: Vec<T> = Vec::new();
    let mut at: usize = 0;
    assert(out@ =~= all.subrange(start as int, start as int));
    for item in it: data
        invariant
            it.seq() == all,
            all.len() == total,
            at == it.index(),
            start <= end <= all.len(),
            out@ == all.subrange(
                start as int,
                if at <= start {
                    start as int
                } else if at <= end {
                    at as int
                } else {
                    end as int
                },
            ),
    {
        if start <= at && at < end {
            let ghost before = out@;
            out.push(item);
            assert(out@ =~= all.subrange(start as int, at + 1));
        }
        at = at + 1;
    }
    PagedResponse { page: shown, limit: size, total, number_of_pages, data: out }
}

} // verus!
