//! Listing every community the bot belongs to, page by page. The pager decides
//! what to ask for next; the caller fetches each page and reports it back.

use vstd::prelude::*;

verus! {

/// The most communities one page request asks for.
pub const PAGE_SIZE: u64 = 100;

/// The cursor of the first request: identifiers are never smaller.
pub const FIRST_CURSOR: u64 = 1;

/// Failed fetches in a row after which the listing gives up.
pub const MAX_PAGE_ATTEMPTS: u64 = 3;

#[derive(Clone, Copy, Debug, PartialEq, Eq, Structural)]
pub enum PagerState {
    /// More pages are to be fetched.
    Running,
    /// A short or empty page came: every community is listed.
    Exhausted,
    /// Fetching a page failed too often in a row.
    FetchFailed,
}

#[derive(Clone, Copy, Debug, PartialEq, Eq, Structural)]
pub enum EnumerationError {
    /// The listing stopped on failed fetches before the last page.
    PageFetchFailed,
}

/// A request for the communities after `after`, at most `limit` of them.
#[derive(Clone, Copy, Debug, PartialEq, Eq, Structural)]
pub struct PageRequest {
    pub after: u64,
    pub limit: u64,
}

/// Paged listing of communities.
pub struct GuildPager {
    cursor: u64,
    guild_ids: Vec<u64>,
    failures: u64,
    state: PagerState,
}

pub open spec fn strictly_ascending(s: Seq<u64>) -> bool {
    forall|i: int, j: int| 0 <= i < j < s.len() ==> s[i] < s[j]
}

/// Whether `page` may follow `cursor`: ascending, every identifier after the cursor.
pub open spec fn page_fits(cursor: u64, page: Seq<u64>) -> bool {
    strictly_ascending(page) && (page.len() > 0 ==> cursor < page[0])
}

impl GuildPager {
    pub closed spec fn spec_cursor(&self) -> u64 {
        self.cursor
    }

    pub closed spec fn spec_ids(&self) -> Seq<u64> {
        self.guild_ids@
    }

    pub closed spec fn spec_failures(&self) -> u64 {
        self.failures
    }

    pub closed spec fn spec_state(&self) -> PagerState {
        self.state
    }

    /// The listed identifiers ascend, none is past the cursor, the last one is
    /// the cursor, and failures stay under the limit while the listing runs.
    pub open spec fn well_formed(&self) -> bool {
        &&& strictly_ascending(self.spec_ids())
        &&& forall|i: int|
            0 <= i < self.spec_ids().len() ==> FIRST_CURSOR < #[trigger] self.spec_ids()[i]
            <= self.spec_cursor()
        &&& self.spec_ids().len() > 0 ==> self.spec_ids().last() == self.spec_cursor()
        &&& FIRST_CURSOR <= self.spec_cursor()
        &&& self.spec_state() == PagerState::Running ==> self.spec_failures()
            < MAX_PAGE_ATTEMPTS
    }

    pub fn new() -> (r: GuildPager)
        ensures
            r.well_formed(),
            r.spec_cursor() == FIRST_CURSOR,
            r.spec_ids().len() == 0,
            r.spec_failures() == 0,
            r.spec_state() == PagerState::Running,
    {
        GuildPager { cursor: FIRST_CURSOR, guild_ids: Vec::new(), failures: 0, state: PagerState::Running }
    }

    pub fn state(&self) -> (r: PagerState)
        ensures
            r == self.spec_state(),
    {
        self.state
    }

    /// The communities listed so far, in ascending order.
    pub fn guild_ids(&self) -> (r: &Vec<u64>)
        ensures
            r@ == self.spec_ids(),
    {
        &self.guild_ids
    }

    /// The page to fetch next, while the listing runs.
    pub fn next_request(&self) -> (r: Option<PageRequest>)
        ensures
            self.spec_state() == PagerState::Running ==> r == Some(
                PageRequest { after: self.spec_cursor(), limit: PAGE_SIZE },
            ),
            self.spec_state() != PagerState::Running ==> r is None,
    {
        match self.state {
            PagerState::Running => Some(PageRequest { after: self.cursor, limit: PAGE_SIZE }),
            _ => None,
        }
    }

    /// Records a failed fetch of the requested page.
    pub fn record_failure(&mut self)
        requires
            old(self).well_formed(),
            old(self).spec_state() == PagerState::Running,
        ensures
            final(self).well_formed(),
            final(self).spec_cursor() == old(self).spec_cursor(),
            final(self).spec_ids() == old(self).spec_ids(),
            final(self).spec_failures() == old(self).spec_failures() + 1,
            final(self).spec_state() == if old(self).spec_failures() + 1 >= MAX_PAGE_ATTEMPTS {
                PagerState::FetchFailed
            } else {
                PagerState::Running
            },
    {
        self.failures = self.failures + 1;
        if self.failures >= MAX_PAGE_ATTEMPTS {
            self.state = PagerState::FetchFailed;
        }
    }

    /// Records the page that the requested fetch returned. A page that is not
    /// ascending after the cursor counts as a failed fetch; otherwise its
    /// identifiers are added, the cursor moves to its last one, and a page
    /// shorter than the page size ends the listing.
    pub fn record_page(&mut self, page: &Vec<u64>)
        requires
            old(self).well_formed(),
            old(self).spec_state() == PagerState::Running,
        ensures
            final(self).well_formed(),
            page_fits(old(self).spec_cursor(), page@) ==> {
                &&& final(self).spec_ids() == old(self).spec_ids() + page@
                &&& final(self).spec_cursor() == if page@.len() > 0 {
                    page@.last()
                } else {
                    old(self).spec_cursor()
                }
                &&& final(self).spec_failures() == 0
                &&& final(self).spec_state() == if page@.len() < PAGE_SIZE {
                    PagerState::Exhausted
                } else {
                    PagerState::Running
                }
            },
            !page_fits(old(self).spec_cursor(), page@) ==> {
                &&& final(self).spec_ids() == old(self).spec_ids()
                &&& final(self).spec_cursor() == old(self).spec_cursor()
                &&& final(self).spec_failures() == old(self).spec_failures() + 1
                &&& final(self).spec_state() == if old(self).spec_failures() + 1
                    >= MAX_PAGE_ATTEMPTS {
                    PagerState::FetchFailed
                } else {
                    PagerState::Running
                }
            },
            final(self).spec_state() == PagerState::Running ==> (final(self).spec_cursor()
                > old(self).spec_cursor() || final(self).spec_failures() > old(
                self,
            ).spec_failures()),
    {
        if !fits_after(self.cursor, page) {
            self.record_failure();
            return;
        }
        let ghost before = self.guild_ids@;
        let ghost old_cursor = self.cursor;
        let n = page.len();
        let mut k: usize = 0;
        while k < n
            invariant
                n == page@.len(),
                k <= n,
                self.guild_ids@ == before + page@.take(k as int),
                self.cursor == old_cursor,
                self.state == PagerState::Running,
                page_fits(old_cursor, page@),
            decreases n - k,
        {
            self.guild_ids.push(page[k]);
            k = k + 1;
            assert(page@.take(k as int) =~= page@.take(k - 1).push(page@[k - 1]));
        }
        assert(page@.take(n as int) =~= page@);
        if n > 0 {
            self.cursor = page[n - 1];
        }
        self.failures = 0;
        if n < PAGE_SIZE as usize {
            self.state = PagerState::Exhausted;
        }
        proof {
            lemma_append_page(before, old_cursor, page@);
        }
    }

    /// The outcome of a finished listing: every community, or the failure that
    /// stopped it.
    pub fn finish(self) -> (r: Result<Vec<u64>, EnumerationError>)
        requires
            self.spec_state() != PagerState::Running,
        ensures
            self.spec_state() == PagerState::Exhausted ==> (r matches Ok(ids) && ids@
                == self.spec_ids()),
            self.spec_state() == PagerState::FetchFailed ==> r == Err::<Vec<u64>, EnumerationError>(
                EnumerationError::PageFetchFailed,
            ),
    {
        match self.state {
            PagerState::Exhausted => Ok(self.guild_ids),
            _ => Err(EnumerationError::PageFetchFailed),
        }
    }
}

/// Whether `page` ascends and starts after `cursor`.
fn fits_after(cursor: u64, page: &Vec<u64>) -> (r: bool)
    ensures
        r == page_fits(cursor, page@),
{
    let n = page.len();
    if n == 0 {
        return true;
    }
    if page[0] <= cursor {
        return false;
    }
    let mut i: usize = 1;
    while i < n
        invariant
            n == page@.len(),
            1 <= i <= n,
            forall|a: int, b: int| 0 <= a < b < i ==> page@[a] < page@[b],
        decreases n - i,
    {
        if page[i] <= page[i - 1] {
            return false;
        }
        assert forall|a: int, b: int| 0 <= a < b < i + 1 implies page@[a] < page@[b] by {
            if b == i && a < i - 1 {
                assert(page@[a] < page@[i - 1]);
            }
        }
        i = i + 1;
    }
    true
}

proof fn lemma_append_page(before: Seq<u64>, cursor: u64, page: Seq<u64>)
    requires
        strictly_ascending(before),
        forall|j: int| 0 <= j < before.len() ==> FIRST_CURSOR < #[trigger] before[j] <= cursor,
        FIRST_CURSOR <= cursor,
        page_fits(cursor, page),
    ensures
        strictly_ascending(before + page),
        ({
            let last = if page.len() > 0 {
                page.last()
            } else {
                cursor
            };
            &&& FIRST_CURSOR <= last
            &&& forall|j: int|
                0 <= j < (before + page).len() ==> FIRST_CURSOR < #[trigger] (before + page)[j]
                <= last
        }),
{
    let ids = before + page;
    let last = if page.len() > 0 {
        page.last()
    } else {
        cursor
    };
    assert forall|a: int, b: int| 0 <= a < b < ids.len() implies ids[a] < ids[b] by {
        if b >= before.len() && a < before.len() {
            assert(page[0] <= page[b - before.len()]);
        }
    }
    assert forall|j: int| 0 <= j < ids.len() implies FIRST_CURSOR < #[trigger] ids[j] <= last by {
        if j >= before.len() {
            assert(page[0] <= page[j - before.len()]);
            assert(page[j - before.len()] <= page[page.len() - 1]);
        } else if page.len() > 0 {
            assert(before[j] <= cursor);
        }
    }
}

/// A listing never holds the same community twice.
pub proof fn lemma_listed_ids_distinct(p: GuildPager)
    requires
        p.well_formed(),
    ensures
        p.spec_ids().no_duplicates(),
{
}

} // verus!
