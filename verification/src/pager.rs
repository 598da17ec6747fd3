//! Paging-button hit testing at the right edge of the bar.

use vstd::prelude::*;

verus! {

/// Kimpanel signal member for a click at `x` on a bar of width `w`, or `None`
/// when the click misses the enabled paging buttons.
pub open spec fn pager_action(has_previous: bool, has_next: bool, w: u32, x: u32) -> Option<
    Seq<char>,
> {
    let start: int = if w >= 96 {
        w - 96
    } else {
        0
    };
    if !has_previous && !has_next {
        None
    } else if x < start {
        None
    } else if (x - start) / 48 == 0 && has_previous {
        Some("LookupTablePageUp"@)
    } else if (x - start) / 48 == 1 && has_next {
        Some("LookupTablePageDown"@)
    } else {
        None
    }
}

/// On a bar at least 96 pixels wide, the rightmost 48 pixels are the
/// "page down" button, which answers exactly when there is a next page,
/// whether or not there is a previous one; the 48 pixels left of it are
/// the "page up" button, which answers exactly when there is a previous
/// page; a click further left or past the right edge hits no button.
pub proof fn lemma_pager_buttons(has_previous: bool, has_next: bool, w: u32, x: u32)
    requires
        w >= 96,
    ensures
        w - 48 <= x < w ==> pager_action(has_previous, has_next, w, x) == if has_next {
            Some("LookupTablePageDown"@)
        } else {
            None
        },
        w - 96 <= x < w - 48 ==> pager_action(has_previous, has_next, w, x) == if has_previous {
            Some("LookupTablePageUp"@)
        } else {
            None
        },
        x < w - 96 || x >= w ==> pager_action(has_previous, has_next, w, x) is None,
{
    if w - 48 <= x < w {
        assert((x - (w - 96)) / 48 == 1);
    }
    if w - 96 <= x < w - 48 {
        assert((x - (w - 96)) / 48 == 0);
    }
    if x >= w {
        assert((x - (w - 96)) / 48 >= 2);
    }
}

/// On a bar narrower than 96 pixels the buttons start at its left edge:
/// "page up" over the first 48 pixels, "page down" over the next 48.
pub proof fn lemma_pager_buttons_narrow(has_previous: bool, has_next: bool, w: u32, x: u32)
    requires
        w < 96,
    ensures
        x < 48 ==> pager_action(has_previous, has_next, w, x) == if has_previous {
            Some("LookupTablePageUp"@)
        } else {
            None
        },
        48 <= x < 96 ==> pager_action(has_previous, has_next, w, x) == if has_next {
            Some("LookupTablePageDown"@)
        } else {
            None
        },
        x >= 96 ==> pager_action(has_previous, has_next, w, x) is None,
{
    if 48 <= x < 96 {
        assert(x / 48 == 1);
    }
    if x < 48 {
        assert(x / 48 == 0);
    }
    if x >= 96 {
        assert(x / 48 >= 2);
    }
}

/// The paging button hit by a click at `x` on a bar `w` pixels wide. The two
/// buttons occupy the rightmost 96 pixels: "page up" first, then "page
/// down"; a button only answers when its direction is available.
pub fn pager_hit(has_previous: bool, has_next: bool, w: u32, x: u32) -> (r: Option<&'static str>)
    ensures
        r is Some == pager_action(has_previous, has_next, w, x) is Some,
        r matches Some(s) ==> s@ == pager_action(has_previous, has_next, w, x)->0,
{
    if !has_previous && !has_next {
        return None;
    }
    let start = w.saturating_sub(96);
    if x < start {
        return None;
    }
    let zone = (x - start) / 48;
    if zone == 0 && has_previous {
        let s = "LookupTablePageUp";
        proof {
            reveal_strlit("LookupTablePageUp");
        }
        Some(s)
    } else if zone == 1 && has_next {
        let s = "LookupTablePageDown";
        proof {
            reveal_strlit("LookupTablePageDown");
        }
        Some(s)
    } else {
        None
    }
}

} // verus!
