//! Browsing accumulated results a window at a time: which slice a display
//! page shows, and what each choice of the user leads to.

use crate::retry::{parse_u64, parsed_u64};
use crate::text::{chars_of, trim, trim_bounds};
use vstd::prelude::*;

verus! {

/// Results shown at once.
pub const DISPLAY_PAGE_SIZE: usize = 25;

/// Display pages needed for `len` results, `size` per page.
pub open spec fn pages_for(len: nat, size: nat) -> nat
    recommends
        size > 0,
{
    if len == 0 {
        0
    } else {
        ((len - 1) / (size as int) + 1) as nat
    }
}

/// First index that display page `page` (from 1) shows.
pub open spec fn window_start(page: nat, size: nat) -> nat {
    ((page - 1) * size) as nat
}

/// One past the last index that display page `page` shows.
pub open spec fn window_end(page: nat, size: nat, len: nat) -> nat {
    if window_start(page, size) + size <= len {
        window_start(page, size) + size
    } else {
        len
    }
}

pub fn total_pages(len: usize, size: usize) -> (r: usize)
    requires
        size > 0,
    ensures
        r == pages_for(len as nat, size as nat),
{
    if len == 0 {
        0
    } else {
        (len - 1) / size + 1
    }
}

/// The requested page brought into `1..=total` (page 1 when there is none).
pub fn clamp_page(requested: usize, total: usize) -> (r: usize)
    ensures
        r == (if requested < 1 {
            1
        } else if total < 1 {
            1
        } else if requested > total {
            total
        } else {
            requested
        }),
{
    if requested < 1 || total < 1 {
        1
    } else if requested > total {
        total
    } else {
        requested
    }
}

/// What the user typed at the browse prompt.
#[derive(Debug, Clone, Copy, PartialEq, Eq)]
pub enum Choice {
    Next,
    Previous,
    Cancel,
    /// A number, 1 for the first result of the window.
    Pick(u64),
    Invalid,
}

pub open spec fn is_letter(s: Seq<char>, lower: char, upper: char) -> bool {
    s.len() == 1 && (s[0] == lower || s[0] == upper)
}

/// The choice that `input` spells once trimmed: `n`, `p` or `c` in either
/// case, or a number.
pub open spec fn choice_of(input: Seq<char>) -> Choice {
    let t = trim(input);
    if is_letter(t, 'n', 'N') {
        Choice::Next
    } else if is_letter(t, 'p', 'P') {
        Choice::Previous
    } else if is_letter(t, 'c', 'C') {
        Choice::Cancel
    } else {
        match parsed_u64(t) {
            Some(k) => Choice::Pick(k),
            None => Choice::Invalid,
        }
    }
}

pub fn parse_choice(input: &str) -> (r: Choice)
    ensures
        r == choice_of(input@),
{
    let v = chars_of(input);
    let (a, b) = trim_bounds(&v, 0, v.len());
    assert(v@.subrange(0, v@.len() as int) =~= v@);
    if b - a == 1 {
        let c = v[a];
        if c == 'n' || c == 'N' {
            return Choice::Next;
        } else if c == 'p' || c == 'P' {
            return Choice::Previous;
        } else if c == 'c' || c == 'C' {
            return Choice::Cancel;
        }
    }
    match parse_u64(input.substring_char(a, b)) {
        Some(k) => Choice::Pick(k),
        None => Choice::Invalid,
    }
}

/// What a choice led to.
#[derive(Debug, Clone, Copy, PartialEq, Eq)]
pub enum BrowseAction {
    /// The page changed: show it.
    Show,
    /// "Next" on the last page.
    NoMorePages,
    /// "Previous" on the first page.
    AlreadyFirst,
    Cancelled,
    /// The result at this index of the whole sequence was picked.
    Selected(usize),
    /// Not a choice on this window: ask again.
    InvalidChoice,
}

/// The display page shown of `len` accumulated results.
#[derive(Debug)]
pub struct Browser {
    pub page: usize,
    pub total: usize,
    pub len: usize,
}

impl Browser {
    pub open spec fn wf(&self) -> bool {
        &&& self.len > 0
        &&& self.total == pages_for(self.len as nat, DISPLAY_PAGE_SIZE as nat)
        &&& 1 <= self.page <= self.total
    }

    pub open spec fn start(&self) -> nat {
        window_start(self.page as nat, DISPLAY_PAGE_SIZE as nat)
    }

    pub open spec fn end(&self) -> nat {
        window_end(self.page as nat, DISPLAY_PAGE_SIZE as nat, self.len as nat)
    }

    /// Browsing of `len` results from display page `requested`, brought
    /// into range; `None` when there are no results at all.
    pub fn start_at(len: usize, requested: usize) -> (r: Option<Browser>)
        ensures
            len == 0 <==> r is None,
            match r {
                Some(b) => b.wf() && b.len == len && b.page == (if requested < 1 {
                    1
                } else if requested > b.total {
                    b.total
                } else {
                    requested
                }),
                None => true,
            },
    {
        if len == 0 {
            return None;
        }
        let total = total_pages(len, DISPLAY_PAGE_SIZE);
        Some(Browser { page: clamp_page(requested, total), total, len })
    }

    /// The bounds of the window shown.
    pub fn bounds(&self) -> (r: (usize, usize))
        requires
            self.wf(),
        ensures
            r.0 == self.start(),
            r.1 == self.end(),
            r.0 < r.1 <= self.len,
            r.1 - r.0 <= DISPLAY_PAGE_SIZE,
    {
        assert((self.page - 1) * 25 < self.len) by (nonlinear_arith)
            requires
                self.page <= self.total,
                self.total == (self.len - 1) / 25 + 1,
                self.page >= 1,
                self.len > 0,
        ;
        let start = (self.page - 1) * DISPLAY_PAGE_SIZE;
        let end = if self.len - start >= DISPLAY_PAGE_SIZE {
            start + DISPLAY_PAGE_SIZE
        } else {
            self.len
        };
        (start, end)
    }

    /// Acts on one choice of the user.
    pub fn on_choice(&mut self, choice: Choice) -> (a: BrowseAction)
        requires
            old(self).wf(),
        ensures
            final(self).wf(),
            final(self).len == old(self).len,
            final(self).total == old(self).total,
            match choice {
                Choice::Next => if old(self).page < old(self).total {
                    a == BrowseAction::Show && final(self).page == old(self).page + 1
                } else {
                    a == BrowseAction::NoMorePages && final(self).page == old(self).page
                },
                Choice::Previous => if old(self).page > 1 {
                    a == BrowseAction::Show && final(self).page == old(self).page - 1
                } else {
                    a == BrowseAction::AlreadyFirst && final(self).page == old(self).page
                },
                Choice::Cancel => a == BrowseAction::Cancelled && final(self).page
                    == old(self).page,
                Choice::Pick(k) => final(self).page == old(self).page && if 1 <= k && k
                    <= old(self).end() - old(self).start() {
                    a == BrowseAction::Selected((old(self).start() + k - 1) as usize)
                } else {
                    a == BrowseAction::InvalidChoice
                },
                Choice::Invalid => a == BrowseAction::InvalidChoice && final(self).page
                    == old(self).page,
            },
    {
        match choice {
            Choice::Next => {
                if self.page < self.total {
                    self.page = self.page + 1;
                    BrowseAction::Show
                } else {
                    BrowseAction::NoMorePages
                }
            },
            Choice::Previous => {
                if self.page > 1 {
                    self.page = self.page - 1;
                    BrowseAction::Show
                } else {
                    BrowseAction::AlreadyFirst
                }
            },
            Choice::Cancel => BrowseAction::Cancelled,
            Choice::Pick(k) => {
                let (start, end) = self.bounds();
                if 1 <= k && k <= (end - start) as u64 {
                    BrowseAction::Selected(start + (k as usize) - 1)
                } else {
                    BrowseAction::InvalidChoice
                }
            },
            Choice::Invalid => BrowseAction::InvalidChoice,
        }
    }
}

/// The display pages of `len` results follow each other without gap or
/// overlap: the first starts at index 0, each next one starts where the one
/// before ended, each holds between 1 and 25 results, and the last ends at
/// `len`.
pub proof fn lemma_windows_partition(len: nat, page: nat)
    requires
        len > 0,
        1 <= page <= pages_for(len, DISPLAY_PAGE_SIZE as nat),
    ensures
        window_start(1, DISPLAY_PAGE_SIZE as nat) == 0,
        window_start(page, DISPLAY_PAGE_SIZE as nat) < window_end(page, DISPLAY_PAGE_SIZE as nat, len),
        window_end(page, DISPLAY_PAGE_SIZE as nat, len) - window_start(page, DISPLAY_PAGE_SIZE as nat)
            <= DISPLAY_PAGE_SIZE,
        page < pages_for(len, DISPLAY_PAGE_SIZE as nat) ==> window_start(
            page + 1,
            DISPLAY_PAGE_SIZE as nat,
        ) == window_end(page, DISPLAY_PAGE_SIZE as nat, len),
        window_end(pages_for(len, DISPLAY_PAGE_SIZE as nat), DISPLAY_PAGE_SIZE as nat, len) == len,
{
    let t = pages_for(len, 25);
    assert(t == (len - 1) / 25 + 1);
    assert((page - 1) * 25 < len) by (nonlinear_arith)
        requires
            page <= t,
            t == (len - 1) / 25 + 1,
            page >= 1,
            len > 0,
    ;
    assert(page < t ==> page * 25 <= len) by (nonlinear_arith)
        requires
            t == (len - 1) / 25 + 1,
            page >= 1,
            len > 0,
    ;
    assert(((t - 1) * 25) as nat + 25 >= len) by (nonlinear_arith)
        requires
            t == (len - 1) / 25 + 1,
            len > 0,
    ;
    assert((t - 1) * 25 < len) by (nonlinear_arith)
        requires
            t == (len - 1) / 25 + 1,
            len > 0,
    ;
    assert(page * 25 == (page - 1) * 25 + 25) by (nonlinear_arith)
        requires
            page >= 1,
    ;
}

} // verus!
