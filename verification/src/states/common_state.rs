use vstd::prelude::*;
use vstd::string::StringExecFns;

verus! {

/// Progress of a load.
#[derive(Debug, Clone, Copy, PartialEq, Eq, Structural)]
pub enum LoadingState {
    Idle,
    Loading,
    Success,
    Failed,
}

impl Default for LoadingState {
    fn default() -> (r: Self)
        ensures
            r == LoadingState::Idle,
    {
        LoadingState::Idle
    }
}

impl LoadingState {
    pub fn is_loading(&self) -> (r: bool)
        ensures
            r == (*self == LoadingState::Loading),
    {
        matches!(self, LoadingState::Loading)
    }

    pub fn is_success(&self) -> (r: bool)
        ensures
            r == (*self == LoadingState::Success),
    {
        matches!(self, LoadingState::Success)
    }

    pub fn is_failed(&self) -> (r: bool)
        ensures
            r == (*self == LoadingState::Failed),
    {
        matches!(self, LoadingState::Failed)
    }
}

/// An error to show, with an optional code and details.
#[derive(Debug, Clone)]
pub struct ErrorState {
    pub message: String,
    pub code: Option<i32>,
    pub is_retryable: bool,
    pub details: Option<String>,
}

impl ErrorState {
    /// An error with a message only, not retryable.
    pub fn new(message: &str) -> (r: Self)
        ensures
            r.message@ == message@,
            r.code is None,
            !r.is_retryable,
            r.details is None,
    {
        ErrorState { message: String::from_str(message), code: None, is_retryable: false, details: None }
    }

    /// An error with a message and a code, not retryable.
    pub fn with_code(message: &str, code: i32) -> (r: Self)
        ensures
            r.message@ == message@,
            r.code == Some(code),
            !r.is_retryable,
            r.details is None,
    {
        ErrorState { message: String::from_str(message), code: Some(code), is_retryable: false, details: None }
    }

    /// The same error, marked retryable.
    pub fn retryable(self) -> (r: Self)
        ensures
            r.message == self.message,
            r.code == self.code,
            r.is_retryable,
            r.details == self.details,
    {
        let mut r = self;
        r.is_retryable = true;
        r
    }

    /// The same error, with `details`.
    pub fn with_details(self, details: &str) -> (r: Self)
        ensures
            r.message == self.message,
            r.code == self.code,
            r.is_retryable == self.is_retryable,
            r.details matches Some(d) && d@ == details@,
    {
        let mut r = self;
        r.details = Some(String::from_str(details));
        r
    }
}

/// A page position over `total_count` records, pages numbered from 1.
#[derive(Debug, Clone, Copy, PartialEq, Eq, Structural)]
pub struct PaginationState {
    pub current_page: usize,
    pub page_size: usize,
    pub total_count: usize,
}

/// The number of pages `total` records fill, `size` per page (0 when there are none).
pub open spec fn page_count(total: nat, size: nat) -> nat {
    if total == 0 { 0 } else { ((total + size - 1) as nat / size) as nat }
}

/// Whether the page count of `s` can be computed: a zero page size only with no records,
/// and no overflow in adding the page size to the record count.
pub open spec fn pages_computable(s: PaginationState) -> bool {
    s.total_count == 0 || (s.page_size > 0 && s.total_count + s.page_size <= usize::MAX)
}

/// There are never more pages than records.
proof fn lemma_page_count_bounded(total: nat, size: nat)
    requires
        total == 0 || size > 0,
    ensures
        page_count(total, size) <= total,
{
    if total > 0 {
        assert(((total + size - 1) as nat / size) as nat <= total) by (nonlinear_arith)
            requires
                size > 0,
                total > 0,
        {
            assert(total + size - 1 <= total * size + size - 1);
            assert(((total + size - 1) as nat / size) * size <= total + size - 1);
        }
    }
}

/// The state after moving to the next page, when there is one.
pub open spec fn after_next(s: PaginationState) -> PaginationState {
    if s.current_page < page_count(s.total_count as nat, s.page_size as nat) {
        PaginationState { current_page: (s.current_page + 1) as usize, ..s }
    } else {
        s
    }
}

/// The state after moving to the previous page, when there is one.
pub open spec fn after_previous(s: PaginationState) -> PaginationState {
    if s.current_page > 1 {
        PaginationState { current_page: (s.current_page - 1) as usize, ..s }
    } else {
        s
    }
}

impl Default for PaginationState {
    fn default() -> (r: Self)
        ensures
            r == (PaginationState { current_page: 1, page_size: 20, total_count: 0 }),
    {
        PaginationState { current_page: 1, page_size: 20, total_count: 0 }
    }
}

impl PaginationState {
    /// The first page of an empty listing with `page_size` records per page.
    pub fn new(page_size: usize) -> (r: Self)
        ensures
            r == (PaginationState { current_page: 1, page_size, total_count: 0 }),
    {
        PaginationState { current_page: 1, page_size, total_count: 0 }
    }

    /// How many pages the records fill.
    pub fn total_pages(&self) -> (r: usize)
        requires
            pages_computable(*self),
        ensures
            r == page_count(self.total_count as nat, self.page_size as nat),
    {
        if self.total_count == 0 {
            return 0;
        }
        (self.total_count + self.page_size - 1) / self.page_size
    }

    pub fn has_next_page(&self) -> (r: bool)
        requires
            pages_computable(*self),
        ensures
            r == (self.current_page < page_count(self.total_count as nat, self.page_size as nat)),
    {
        self.current_page < self.total_pages()
    }

    pub fn has_previous_page(&self) -> (r: bool)
        ensures
            r == (self.current_page > 1),
    {
        self.current_page > 1
    }

    /// The index of the first record of the current page.
    pub fn start_index(&self) -> (r: usize)
        requires
            self.current_page >= 1,
            (self.current_page - 1) * self.page_size <= usize::MAX,
        ensures
            r == (self.current_page - 1) * self.page_size,
    {
        (self.current_page - 1) * self.page_size
    }

    /// The index just past the last record of the current page.
    pub fn end_index(&self) -> (r: usize)
        requires
            self.current_page * self.page_size <= usize::MAX,
        ensures
            r == if self.current_page * self.page_size <= self.total_count {
                self.current_page * self.page_size
            } else {
                self.total_count as int
            },
    {
        let end = self.current_page * self.page_size;
        if end <= self.total_count { end } else { self.total_count }
    }

    /// Moves to the next page when there is one; returns whether it moved.
    pub fn next_page(&mut self) -> (r: bool)
        requires
            pages_computable(*old(self)),
        ensures
            *final(self) == after_next(*old(self)),
            r == (old(self).current_page < page_count(old(self).total_count as nat, old(self).page_size as nat)),
    {
        if self.has_next_page() {
            self.current_page = self.current_page + 1;
            true
        } else {
            false
        }
    }

    /// Moves to the previous page when there is one; returns whether it moved.
    pub fn previous_page(&mut self) -> (r: bool)
        ensures
            *final(self) == after_previous(*old(self)),
            r == (old(self).current_page > 1),
    {
        if self.has_previous_page() {
            self.current_page = self.current_page - 1;
            true
        } else {
            false
        }
    }

    /// Moves to `page` when it is between 1 and the page count; returns whether it moved.
    pub fn goto_page(&mut self, page: usize) -> (r: bool)
        requires
            pages_computable(*old(self)),
        ensures
            r == (1 <= page <= page_count(old(self).total_count as nat, old(self).page_size as nat)),
            r ==> *final(self) == (PaginationState { current_page: page, ..*old(self) }),
            !r ==> *final(self) == *old(self),
    {
        if page >= 1 && page <= self.total_pages() {
            self.current_page = page;
            true
        } else {
            false
        }
    }
}

/// Moving to the next page and back returns to the page one started on.
pub proof fn law_next_then_previous(s: PaginationState)
    requires
        s.total_count == 0 || s.page_size > 0,
        1 <= s.current_page < page_count(s.total_count as nat, s.page_size as nat),
    ensures
        after_previous(after_next(s)) == s,
{
    lemma_page_count_bounded(s.total_count as nat, s.page_size as nat);
}

/// Moving back a page and then forward returns to the page one started on,
/// when the current page lies within the page count.
pub proof fn law_previous_then_next(s: PaginationState)
    requires
        1 < s.current_page <= page_count(s.total_count as nat, s.page_size as nat),
    ensures
        after_next(after_previous(s)) == s,
{
}

/// A page within the page count starts at a record index no later than it
/// ends, and ends no later than the record count.
pub proof fn law_page_bounds(s: PaginationState)
    requires
        s.page_size > 0,
        1 <= s.current_page <= page_count(s.total_count as nat, s.page_size as nat),
    ensures
        (s.current_page - 1) * s.page_size < s.total_count,
        (s.current_page - 1) * s.page_size <= s.current_page * s.page_size,
{
    let p = s.current_page as int;
    let z = s.page_size as int;
    let t = s.total_count as int;
    let n = page_count(t as nat, z as nat) as int;
    assert(n == (t + z - 1) / z);
    assert((p - 1) * z < t) by (nonlinear_arith)
        requires
            z > 0,
            1 <= p <= n,
            n == (t + z - 1) / z,
            t > 0,
    {
        assert(n * z <= t + z - 1);
        assert((p - 1) * z <= (n - 1) * z);
    }
    assert((p - 1) * z <= p * z) by (nonlinear_arith)
        requires
            z > 0,
            p >= 1,
    ;
}

/// Network connection status.
#[derive(Debug, Clone, Copy, PartialEq, Eq, Structural)]
pub enum ConnectionState {
    Connected,
    Connecting,
    Disconnected,
    Error,
}

impl Default for ConnectionState {
    fn default() -> (r: Self)
        ensures
            r == ConnectionState::Disconnected,
    {
        ConnectionState::Disconnected
    }
}

impl ConnectionState {
    pub fn is_connected(&self) -> (r: bool)
        ensures
            r == (*self == ConnectionState::Connected),
    {
        matches!(self, ConnectionState::Connected)
    }

    pub fn is_connecting(&self) -> (r: bool)
        ensures
            r == (*self == ConnectionState::Connecting),
    {
        matches!(self, ConnectionState::Connecting)
    }

    pub fn is_disconnected(&self) -> (r: bool)
        ensures
            r == (*self == ConnectionState::Disconnected),
    {
        matches!(self, ConnectionState::Disconnected)
    }
}

} // verus!
