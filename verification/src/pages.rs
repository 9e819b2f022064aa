//! Page numbers: the pages of a document, and requests for pages that a
//! document does not have. Pages are counted from one.

use crate::seqs::{first_index, lemma_first_index, lemma_first_index_is};
use vstd::prelude::*;

verus! {

/// The property of lying beyond the last of `count` pages.
pub open spec fn beyond(count: u32) -> spec_fn(u32) -> bool {
    |page: u32| page > count
}

/// The first of `pages` that a document of `count` pages does not have.
pub open spec fn first_beyond(pages: Seq<u32>, count: u32) -> Option<u32> {
    let i = first_index(pages, beyond(count));
    if 0 <= i < pages.len() {
        Some(pages[i])
    } else {
        None
    }
}

/// There is a first page beyond `count` exactly where some page is beyond
/// it; that page is beyond `count`, and no page before it is.
pub proof fn lemma_first_beyond(pages: Seq<u32>, count: u32)
    ensures
        first_beyond(pages, count) is None <==> forall|i: int|
            0 <= i < pages.len() ==> pages[i] <= count,
        first_beyond(pages, count) matches Some(page) ==> page > count && pages.contains(page),
{
    lemma_first_index(pages, beyond(count));
    let i = first_index(pages, beyond(count));
    if i < pages.len() {
        assert(beyond(count)(pages[i]));
    } else {
        assert forall|k: int| 0 <= k < pages.len() implies pages[k] <= count by {
            assert(!beyond(count)(pages[k]));
        }
    }
}

/// Looks for the first of `pages` that a document of `count` pages does not
/// have.
pub fn find_beyond(pages: &[u32], count: u32) -> (r: Option<u32>)
    ensures
        r == first_beyond(pages@, count),
{
    let mut i: usize = 0;
    while i < pages.len() && pages[i] <= count
        invariant
            0 <= i <= pages.len(),
            forall|k: int| 0 <= k < i ==> !beyond(count)(#[trigger] pages@[k]),
        decreases pages.len() - i,
    {
        i += 1;
    }
    proof {
        lemma_first_index_is(pages@, beyond(count), i as int);
    }
    if i < pages.len() {
        Some(pages[i])
    } else {
        None
    }
}

/// The pages of a document of `count` pages, in ascending order.
pub open spec fn all_pages(count: u32) -> Seq<u32> {
    Seq::new(count as nat, |i: int| (i + 1) as u32)
}

/// Lists the pages of a document of `count` pages.
pub fn pages_up_to(count: u32) -> (r: Vec<u32>)
    ensures
        r@ == all_pages(count),
{
    let mut out: Vec<u32> = Vec::new();
    let mut page: u32 = 0;
    while page < count
        invariant
            0 <= page <= count,
            out@ == all_pages(page),
        decreases count - page,
    {
        page += 1;
        out.push(page);
        assert(out@ =~= all_pages(page));
    }
    out
}

/// The pages of a document are within its bounds, and each is one more than
/// the page before it.
pub proof fn lemma_all_pages(count: u32)
    ensures
        all_pages(count).len() == count,
        first_beyond(all_pages(count), count) is None,
        forall|i: int| 0 <= i < count ==> #[trigger] all_pages(count)[i] == i + 1,
        forall|i: int, j: int| 0 <= i < j < count ==> all_pages(count)[i] < all_pages(count)[j],
{
    lemma_first_beyond(all_pages(count), count);
}

} // verus!
