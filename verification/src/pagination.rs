//! Opaque offset cursors over deterministically ordered result sets.
use vstd::prelude::*;
use crate::numeric::{hex, parse_unsigned, push_hex, parse_unsigned_chars, lemma_parse_rendered};
use crate::text::{push_text, starts_with, chars_of, starts_with_chars};

verus! {

/// One page of items and the cursor of the page that follows, if any.
#[derive(Debug, PartialEq, Eq)]
pub struct Page<T> {
    pub items: Vec<T>,
    pub next_cursor: Option<String>,
}

/// Why a page request was rejected.
#[derive(Debug, Clone, Copy, PartialEq, Eq, Structural)]
pub enum CursorError {
    Invalid,
    InvalidLimit,
}

pub open spec fn cursor_prefix() -> Seq<char> {
    "lfc1_"@
}

/// The cursor naming an offset: `lfc1_` followed by the offset in lowercase hex.
pub open spec fn cursor_text(offset: nat) -> Seq<char> {
    cursor_prefix() + hex(offset)
}

/// The offset a cursor names, if it is well formed.
pub open spec fn cursor_offset(cursor: Seq<char>) -> Option<nat> {
    if starts_with(cursor, cursor_prefix()) {
        parse_unsigned(cursor.skip(5), 16, usize::MAX as nat)
    } else {
        None
    }
}

/// The window a page request selects: its start, its end and whether more follow,
/// or the error it is refused with.
pub open spec fn page_window(len: nat, cursor: Option<Seq<char>>, limit: nat) -> Result<
    (nat, nat),
    CursorError,
> {
    if limit < 1 || limit > 1000 {
        Err(CursorError::InvalidLimit)
    } else {
        let start = match cursor {
            None => Some(0nat),
            Some(c) => cursor_offset(c),
        };
        match start {
            None => Err(CursorError::Invalid),
            Some(s) => if s > len {
                Err(CursorError::Invalid)
            } else {
                let end = if s + limit < len {
                    s + limit
                } else {
                    len
                };
                Ok((s, end))
            },
        }
    }
}

fn encode_cursor(offset: usize) -> (c: String)
    ensures
        c@ == cursor_text(offset as nat),
{
    let mut c = String::new();
    push_text(&mut c, "lfc1_");
    push_hex(&mut c, offset as u64);
    c
}

fn decode_cursor(cursor: &str) -> (r: Result<usize, CursorError>)
    ensures
        match cursor_offset(cursor@) {
            Some(v) => r == Ok::<usize, CursorError>(v as usize),
            None => r == Err::<usize, CursorError>(CursorError::Invalid),
        },
{
    proof {
        reveal_strlit("lfc1_");
    }
    let chars = chars_of(cursor);
    let prefix = chars_of("lfc1_");
    if !starts_with_chars(&chars, &prefix) {
        return Err(CursorError::Invalid);
    }
    let mut rest: Vec<char> = Vec::new();
    let mut i: usize = 5;
    while i < chars.len()
        invariant
            5 <= i <= chars.len(),
            chars@ == cursor@,
            rest@ == cursor@.subrange(5, i as int),
        decreases chars.len() - i,
    {
        rest.push(chars[i]);
        i = i + 1;
    }
    assert(rest@ == cursor@.skip(5));
    match parse_unsigned_chars(&rest, 16, usize::MAX as u128) {
        Some(v) => Ok(v as usize),
        None => Err(CursorError::Invalid),
    }
}

/// Paginates an already deterministically ordered slice with an opaque offset cursor.
pub fn paginate<T: Clone>(items: &[T], cursor: Option<&str>, limit: usize) -> (r: Result<
    Page<T>,
    CursorError,
>)
    ensures
        match page_window(
            items@.len(),
            match cursor {
                Some(c) => Some(c@),
                None => None,
            },
            limit as nat,
        ) {
            Err(e) => r == Err::<Page<T>, CursorError>(e),
            Ok((start, end)) => r matches Ok(page) && {
                &&& page.items@.len() == end - start
                &&& forall|i: int|
                    0 <= i < end - start ==> cloned(items@[start + i], #[trigger] page.items@[i])
                &&& end < items@.len() ==> (page.next_cursor matches Some(c) && c@ == cursor_text(
                    end,
                ))
                &&& end == items@.len() ==> page.next_cursor is None
            },
        },
{
    if limit < 1 || limit > 1000 {
        return Err(CursorError::InvalidLimit);
    }
    let start: usize = match cursor {
        None => 0,
        Some(c) => match decode_cursor(c) {
            Ok(v) => v,
            Err(e) => return Err(e),
        },
    };
    if start > items.len() {
        return Err(CursorError::Invalid);
    }
    let end: usize = if limit < items.len() - start {
        start + limit
    } else {
        items.len()
    };
    let mut page_items: Vec<T> = Vec::new();
    let mut i: usize = start;
    while i < end
        invariant
            start <= i <= end <= items@.len(),
            page_items@.len() == i - start,
            forall|k: int|
                0 <= k < i - start ==> cloned(items@[start + k], #[trigger] page_items@[k]),
        decreases end - i,
    {
        page_items.push(items[i].clone());
        i = i + 1;
    }
    let next_cursor = if end < items.len() {
        Some(encode_cursor(end))
    } else {
        None
    };
    Ok(Page { items: page_items, next_cursor })
}

/// The cursor a page hands out leads to the page that starts where it ended:
/// following `next_cursor` walks the result set without gaps or repeats.
pub proof fn next_cursor_resumes_at_end(len: nat, end: nat, limit: nat)
    requires
        end <= len,
        end <= usize::MAX,
        1 <= limit <= 1000,
    ensures
        (page_window(len, Some(cursor_text(end)), limit) matches Ok((start, _)) && start == end),
{
    reveal_strlit("lfc1_");
    let c = cursor_text(end);
    assert(c.subrange(0, 5) == cursor_prefix());
    assert(c.skip(5) == hex(end));
    lemma_parse_rendered(end, 16, usize::MAX as nat);
}

/// A cursor decodes to the offset it was made from.
pub proof fn cursor_round_trip(offset: nat)
    requires
        offset <= usize::MAX,
    ensures
        cursor_offset(cursor_text(offset)) == Some(offset),
{
    reveal_strlit("lfc1_");
    let c = cursor_text(offset);
    assert(c.subrange(0, 5) == cursor_prefix());
    assert(c.skip(5) == hex(offset));
    lemma_parse_rendered(offset, 16, usize::MAX as nat);
}

/// The windows of a walk through `len` items that starts at `start` and
/// follows each page's next cursor until a page ends at the last item.
pub open spec fn walk_windows(len: nat, start: nat, limit: nat) -> Seq<(nat, nat)>
    decreases len - start,
{
    let end = if start + limit < len {
        start + limit
    } else {
        len
    };
    if limit == 0 || end >= len || start >= len {
        seq![(start, end)]
    } else {
        seq![(start, end)] + walk_windows(len, end, limit)
    }
}

proof fn lemma_walk_from(len: nat, start: nat, limit: nat)
    requires
        1 <= limit <= 1000,
        start < len,
        len <= usize::MAX,
    ensures
        ({
            let w = walk_windows(len, start, limit);
            &&& w.len() >= 1
            &&& w[0].0 == start
            &&& w.last().1 == len
            &&& w.last().0 < w.last().1 <= w.last().0 + limit
            &&& forall|k: int| 0 <= k < w.len() - 1 ==> (#[trigger] w[k]).1 == w[k + 1].0 && w[k].1 == w[k].0 + limit
                && w[k].1 < len
            &&& forall|k: int| 0 <= k < w.len() ==> start <= (#[trigger] w[k]).0
            &&& forall|k: int|
                0 <= k < w.len() - 1 ==> page_window(len, Some(cursor_text((#[trigger] w[k]).1)), limit)
                    == Ok::<(nat, nat), CursorError>(w[k + 1])
        }),
    decreases len - start,
{
    let end = if start + limit < len {
        start + limit
    } else {
        len
    };
    let w = walk_windows(len, start, limit);
    if end < len {
        lemma_walk_from(len, end, limit);
        let rest = walk_windows(len, end, limit);
        assert(w == seq![(start, end)] + rest);
        cursor_round_trip(end);
        assert(page_window(len, Some(cursor_text(end)), limit) == Ok::<(nat, nat), CursorError>(rest[0]));
        assert forall|k: int| 0 <= k < w.len() - 1 implies (#[trigger] w[k]).1 == w[k + 1].0 && w[k].1 == w[k].0
            + limit && w[k].1 < len by {
            if k > 0 {
                assert(w[k] == rest[k - 1]);
                assert(w[k + 1] == rest[k]);
            }
        }
        assert forall|k: int| 0 <= k < w.len() implies start <= (#[trigger] w[k]).0 by {
            if k > 0 {
                assert(w[k] == rest[k - 1]);
            }
        }
        assert forall|k: int|
            0 <= k < w.len() - 1 implies page_window(len, Some(cursor_text((#[trigger] w[k]).1)), limit)
                == Ok::<(nat, nat), CursorError>(w[k + 1]) by {
            if k > 0 {
                assert(w[k] == rest[k - 1]);
                assert(w[k + 1] == rest[k]);
            }
        }
    }
}

/// Some window of `w` holds position `i`.
pub open spec fn window_holds(w: Seq<(nat, nat)>, i: int) -> bool {
    exists|k: int| 0 <= k < w.len() && (#[trigger] w[k]).0 <= i < w[k].1
}

/// Walking all pages returns every item exactly once, in order: the first
/// page starts at the first item, each page hands out the cursor of the page
/// that starts where it ended, every page but the last is full, and the last
/// ends at the last item (an empty result is one empty page).
pub proof fn walking_all_pages_covers_every_item(len: nat, limit: nat)
    requires
        1 <= limit <= 1000,
        len <= usize::MAX,
    ensures
        ({
            let w = walk_windows(len, 0, limit);
            &&& page_window(len, None, limit) == Ok::<(nat, nat), CursorError>(w[0])
            &&& w[0].0 == 0
            &&& w.last().1 == len
            &&& forall|k: int|
                0 <= k < w.len() - 1 ==> page_window(len, Some(cursor_text((#[trigger] w[k]).1)), limit)
                    == Ok::<(nat, nat), CursorError>(w[k + 1])
            &&& forall|k: int| 0 <= k < w.len() - 1 ==> (#[trigger] w[k]).1 == w[k + 1].0 && w[k].1 == w[k].0 + limit
                && w[k].1 < len
            &&& w.last().1 - w.last().0 <= limit
            &&& (len > 0 ==> w.last().0 < w.last().1)
            &&& (len == 0 ==> w.len() == 1 && w[0] == (0nat, 0nat))
            &&& forall|i: int| 0 <= i < len ==> #[trigger] window_holds(w, i)
        }),
{
    let w = walk_windows(len, 0, limit);
    if len > 0 {
        lemma_walk_from(len, 0, limit);
        assert forall|i: int| 0 <= i < len implies #[trigger] window_holds(w, i) by {
            lemma_walk_finds(w, len, i);
        }
    }
}

proof fn lemma_walk_finds(w: Seq<(nat, nat)>, len: nat, i: int)
    requires
        w.len() >= 1,
        w[0].0 == 0,
        w.last().1 == len,
        0 <= i < len,
        forall|k: int| 0 <= k < w.len() - 1 ==> (#[trigger] w[k]).1 == w[k + 1].0,
    ensures
        exists|k: int| 0 <= k < w.len() && (#[trigger] w[k]).0 <= i < w[k].1,
    decreases w.len(),
{
    if w.len() > 1 {
        let init = w.drop_last();
        if i < init.last().1 {
            assert forall|k: int| 0 <= k < init.len() - 1 implies (#[trigger] init[k]).1 == init[k + 1].0 by {
                assert(init[k] == w[k] && init[k + 1] == w[k + 1]);
            }
            lemma_walk_finds(init, init.last().1, i);
            let k = choose|k: int| 0 <= k < init.len() && (#[trigger] init[k]).0 <= i < init[k].1;
            assert(w[k] == init[k]);
        } else {
            assert(w[w.len() - 2].1 == w[w.len() - 1].0);
            assert(w.last().0 <= i < w.last().1);
        }
    } else {
        assert(w[0].0 <= i < w[0].1);
    }
}

} // verus!
