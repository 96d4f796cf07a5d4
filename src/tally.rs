//! Counting the items of a paged listing, page by page.
use vstd::prelude::*;

verus! {

/// The sum of the page sizes.
pub open spec fn sum(pages: Seq<nat>) -> nat
    decreases pages.len(),
{
    if pages.len() == 0 {
        0
    } else {
        sum(pages.drop_last()) + pages.last()
    }
}

/// Counting two runs of pages one after the other gives the count of all of
/// them together: no item is lost or counted twice at a page boundary.
pub proof fn lemma_sum_concat(a: Seq<nat>, b: Seq<nat>)
    ensures
        sum(a + b) == sum(a) + sum(b),
    decreases b.len(),
{
    if b.len() == 0 {
        assert(a + b =~= a);
    } else {
        assert((a + b).drop_last() =~= a + b.drop_last());
        lemma_sum_concat(a, b.drop_last());
    }
}

/// A running count over the pages of a listing.
pub struct Tally {
    pub total: u64,
    /// The sizes of the pages counted so far.
    pub pages: Ghost<Seq<nat>>,
}

impl Tally {
    /// The count is the number of items on all pages counted so far.
    pub open spec fn wf(&self) -> bool {
        self.total == sum(self.pages@)
    }

    /// A count of no pages.
    pub fn new() -> (r: Tally)
        ensures
            r.wf(),
            r.total == 0,
            r.pages@ == Seq::<nat>::empty(),
    {
        Tally { total: 0, pages: Ghost(Seq::empty()) }
    }

    /// Counts a page of `n` items. Where the count would no longer fit in a
    /// `u64` nothing changes and the result is `false`.
    pub fn add_page(&mut self, n: usize) -> (ok: bool)
        requires
            old(self).wf(),
        ensures
            final(self).wf(),
            ok == (old(self).total + n <= u64::MAX),
            ok ==> final(self).total == old(self).total + n,
            ok ==> final(self).pages@ == old(self).pages@.push(n as nat),
            !ok ==> *final(self) == *old(self),
    {
        if n as u64 > u64::MAX - self.total {
            return false;
        }
        self.total = self.total + n as u64;
        let ghost old_pages = self.pages@;
        self.pages = Ghost(old_pages.push(n as nat));
        assert(self.pages@.drop_last() =~= old_pages);
        true
    }

    /// The number of items on all pages counted.
    pub fn total(&self) -> (r: u64)
        requires
            self.wf(),
        ensures
            r == sum(self.pages@),
            r == self.total,
    {
        self.total
    }
}

} // verus!
