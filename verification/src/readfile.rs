//! The application that shows the beginning of a file: as far as it
//! computes, it finds where the first lines end.

use vstd::prelude::*;

verus! {

/// The number of lines that the application shows.
pub const SHOWN_LINES: usize = 3;

/// The byte that ends a line.
pub const NEWLINE: u8 = 0x0a;

/// The number of bytes of `text` that hold its first `lines` lines, each
/// with the byte that ends it: all of `text` if it has fewer lines.
pub open spec fn head_len(text: Seq<u8>, lines: nat) -> nat
    decreases text.len(),
{
    if lines == 0 || text.len() == 0 {
        0
    } else if text[0] == NEWLINE {
        1 + head_len(text.drop_first(), (lines - 1) as nat)
    } else {
        1 + head_len(text.drop_first(), lines)
    }
}

/// The number of bytes of `text` that the application shows of it: its
/// first `lines` lines.
pub fn head_lines(text: &[u8], lines: usize) -> (shown: usize)
    ensures
        shown == head_len(text@, lines as nat),
        shown <= text@.len(),
{
    let mut shown: usize = 0;
    let mut seen: usize = 0;
    proof {
        assert(text@.skip(0) =~= text@);
    }
    while shown < text.len() && seen < lines
        invariant
            shown <= text@.len(),
            seen <= lines,
            head_len(text@, lines as nat) == shown + head_len(
                text@.skip(shown as int),
                (lines - seen) as nat,
            ),
        decreases text@.len() - shown,
    {
        proof {
            assert(text@.skip(shown as int).drop_first() =~= text@.skip(shown + 1));
            assert(text@.skip(shown as int)[0] == text@[shown as int]);
        }
        if text[shown] == NEWLINE {
            seen = seen + 1;
        }
        shown = shown + 1;
    }
    shown
}

} // verus!
