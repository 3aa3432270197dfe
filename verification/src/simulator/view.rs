//! What the terminal view computes before it paints: where each frame of the
//! assembled image starts and ends, which lines of the log are on screen, and
//! the hex column of a memory row.
use crate::text;
use vstd::prelude::*;

verus! {

/// The frames of an image from offset `pos` on, as (start, end) spans: a
/// frame is its two header bytes and the payload whose length is the high
/// nibble of its second byte, cut off at the end of the image; a frame of
/// odd length is followed by one pad byte (if the image goes on). A lone
/// trailing byte is no frame.
pub open spec fn frame_walk(img: Seq<u8>, pos: nat) -> Seq<(nat, nat)>
    decreases img.len() - pos,
{
    if pos + 2 > img.len() {
        seq![]
    } else {
        let full = pos + 2 + img[pos + 1int] / 16;
        let end: nat = if full < img.len() {
            full as nat
        } else {
            img.len()
        };
        let next: nat = if end % 2 == 1 && end < img.len() {
            end + 1
        } else {
            end
        };
        seq![(pos, end)] + frame_walk(img, next)
    }
}

/// Spans as plain numbers.
pub open spec fn spans_view(v: Seq<(usize, usize)>) -> Seq<(nat, nat)> {
    v.map_values(|p: (usize, usize)| (p.0 as nat, p.1 as nat))
}

/// The (start, end) span of every frame of `img`, in order.
pub fn frame_spans(img: &[u8]) -> (v: Vec<(usize, usize)>)
    ensures
        spans_view(v@) == frame_walk(img@, 0),
{
    let mut v: Vec<(usize, usize)> = Vec::new();
    let mut pos: usize = 0;
    while pos < img.len() && img.len() - pos >= 2
        invariant
            pos <= img@.len(),
            spans_view(v@) + frame_walk(img@, pos as nat) == frame_walk(img@, 0),
        decreases img.len() - pos,
    {
        let plen = (img[pos + 1] / 16) as usize;
        let end = if img.len() - pos - 2 > plen {
            pos + 2 + plen
        } else {
            img.len()
        };
        let ghost rest = frame_walk(img@, pos as nat);
        let next = if end % 2 == 1 && end < img.len() {
            end + 1
        } else {
            end
        };
        proof {
            assert(rest == seq![(pos as nat, end as nat)] + frame_walk(img@, next as nat));
            assert(spans_view(v@.push((pos, end))) =~= spans_view(v@).push((pos as nat, end as nat)));
            assert(spans_view(v@).push((pos as nat, end as nat)) + frame_walk(img@, next as nat) =~= spans_view(
                v@,
            ) + rest);
        }
        v.push((pos, end));
        pos = next;
    }
    proof {
        assert(frame_walk(img@, pos as nat) == Seq::<(nat, nat)>::empty());
        assert(spans_view(v@) + Seq::<(nat, nat)>::empty() =~= spans_view(v@));
    }
    v
}

/// The log lines on screen, as (start, end, back): `back` is how far the
/// view has scrolled up from the newest line, at most to the oldest one;
/// the view ends `back` lines before the end and shows up to `visible`
/// lines.
pub open spec fn log_window_spec(total: nat, scroll: nat, visible: nat) -> (nat, nat, nat) {
    let back: nat = if total == 0 {
        0
    } else if scroll < total - 1 {
        scroll
    } else {
        (total - 1) as nat
    };
    let end: nat = (total - back) as nat;
    let start: nat = if end >= visible {
        (end - visible) as nat
    } else {
        0
    };
    (start, end, back)
}

/// Which lines of a log of `total` lines the log pane shows.
pub fn log_window(total: usize, scroll: u16, visible: usize) -> (r: (usize, usize, usize))
    ensures
        (r.0 as nat, r.1 as nat, r.2 as nat) == log_window_spec(total as nat, scroll as nat, visible as nat),
        r.0 <= r.1 <= total,
{
    let cap = if total == 0 {
        0
    } else {
        total - 1
    };
    let back = if (scroll as usize) < cap {
        scroll as usize
    } else {
        cap
    };
    let end = total - back;
    let start = if end >= visible {
        end - visible
    } else {
        0
    };
    (start, end, back)
}

/// The hex column of a memory row: each byte as two hex digits and a
/// space, with one more space ahead of the ninth byte.
pub open spec fn hex_row_spec(c: Seq<u8>) -> Seq<char>
    decreases c.len(),
{
    if c.len() == 0 {
        seq![]
    } else {
        hex_row_spec(c.drop_last()) + (if c.len() - 1 == 8 {
            seq![' ']
        } else {
            seq![]
        }) + text::zero_pad(text::digits(c.last() as nat, 16), 2) + seq![' ']
    }
}

/// The hex column of a memory row.
pub fn hex_row(chunk: &[u8]) -> (s: String)
    ensures
        s@ == hex_row_spec(chunk@),
{
    let mut out: Vec<char> = Vec::new();
    let mut i: usize = 0;
    while i < chunk.len()
        invariant
            i <= chunk@.len(),
            out@ == hex_row_spec(chunk@.take(i as int)),
        decreases chunk@.len() - i,
    {
        let ghost before = out@;
        if i == 8 {
            out.push(' ');
        }
        let mut h = text::fmt_radix(chunk[i] as u64, 16, 2);
        out.append(&mut h);
        out.push(' ');
        proof {
            let t = chunk@.take(i + 1);
            assert(t.drop_last() =~= chunk@.take(i as int));
            assert(t.last() == chunk@[i as int]);
            assert(out@ =~= hex_row_spec(t));
        }
        i += 1;
    }
    assert(chunk@.take(chunk@.len() as int) =~= chunk@);
    text::string_of(out.as_slice())
}

} // verus!
