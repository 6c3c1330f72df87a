//! The rounded window on X11: which backend the window runs on, and the rectangles whose union
//! is the window's shape with rounded corners.
use vstd::prelude::*;
use crate::platform::LinuxWindowBackend;

verus! {

/// The backend of a window, from what its display handle and its window handle tell: the one
/// they agree on, the one that only one of them tells, else unknown.
pub fn classify_linux_window_backend(
    display_backend: Option<LinuxWindowBackend>,
    window_backend: Option<LinuxWindowBackend>,
) -> (r: LinuxWindowBackend)
    ensures
        r == match (display_backend, window_backend) {
            (Some(d), Some(w)) => if d == w {
                d
            } else {
                LinuxWindowBackend::Unknown
            },
            (Some(b), None) => b,
            (None, Some(b)) => b,
            (None, None) => LinuxWindowBackend::Unknown,
        },
{
    match (display_backend, window_backend) {
        (Some(d), Some(w)) => {
            let same = match (d, w) {
                (LinuxWindowBackend::Wayland, LinuxWindowBackend::Wayland) => true,
                (LinuxWindowBackend::X11Xcb, LinuxWindowBackend::X11Xcb) => true,
                (LinuxWindowBackend::X11Xlib, LinuxWindowBackend::X11Xlib) => true,
                (LinuxWindowBackend::Unknown, LinuxWindowBackend::Unknown) => true,
                _ => false,
            };
            if same {
                d
            } else {
                LinuxWindowBackend::Unknown
            }
        },
        (Some(b), None) => b,
        (None, Some(b)) => b,
        (None, None) => LinuxWindowBackend::Unknown,
    }
}

/// The radius of the window's rounded corners on X11, in pixels.
pub const LINUX_X11_CORNER_RADIUS: u16 = 14;

/// The corner radius for a window of this size: at most half its width and half its height.
pub open spec fn corner_radius(width: u16, height: u16) -> int {
    let a: int = if (LINUX_X11_CORNER_RADIUS as int) < (width / 2) as int {
        LINUX_X11_CORNER_RADIUS as int
    } else {
        (width / 2) as int
    };
    if a < (height / 2) as int {
        a
    } else {
        (height / 2) as int
    }
}

/// The corner radius for a window of this size.
pub fn x11_corner_radius(width: u16, height: u16) -> (r: u16)
    ensures
        r as int == corner_radius(width, height),
{
    let a = if LINUX_X11_CORNER_RADIUS < width / 2 {
        LINUX_X11_CORNER_RADIUS
    } else {
        width / 2
    };
    if a < height / 2 {
        a
    } else {
        height / 2
    }
}

/// `a - b`, or zero where `b` is larger.
pub open spec fn sat_sub(a: int, b: int) -> int {
    if a > b {
        a - b
    } else {
        0
    }
}

/// Twice `x`, capped at the largest `u16`.
pub open spec fn sat_double(x: int) -> int {
    if 2 * x <= 0xFFFF {
        2 * x
    } else {
        0xFFFF
    }
}

/// The number of rows that the row runs cover.
pub open spec fn rows_total(rows: Seq<(u16, u16)>) -> int
    decreases rows.len(),
{
    if rows.len() == 0 {
        0
    } else {
        rows_total(rows.drop_last()) + rows.last().1
    }
}

/// The rectangle of one run of rows inset by the same amount at `y`, where it has a width.
pub open spec fn run_rect(width: u16, run: (u16, u16), y: int) -> Seq<(int, int, int, int)> {
    let w = sat_sub(width as int, sat_double(run.0 as int));
    if w > 0 {
        seq![(run.0 as int, y, w, run.1 as int)]
    } else {
        Seq::empty()
    }
}

/// The rectangles of runs of rows laid one under the other from `y0`.
pub open spec fn band(width: u16, rows: Seq<(u16, u16)>, y0: int) -> Seq<(int, int, int, int)>
    decreases rows.len(),
{
    if rows.len() == 0 {
        Seq::empty()
    } else {
        band(width, rows.drop_last(), y0) + run_rect(
            width,
            rows.last(),
            y0 + rows_total(rows.drop_last()),
        )
    }
}

/// The rectangles whose union is the window's shape on X11: the whole window where it is
/// maximized, too small, or its corner radius is at most one pixel; else the top corner runs,
/// the middle, and the corner runs again in reverse order at the bottom.
pub open spec fn shape_rects(width: u16, height: u16, is_maximized: bool, top_rows: Seq<(u16, u16)>) -> Seq<
    (int, int, int, int),
> {
    let full = seq![(0int, 0int, width as int, height as int)];
    if is_maximized || width <= 1 || height <= 1 || corner_radius(width, height) <= 1 {
        full
    } else {
        let s = rows_total(top_rows);
        let middle = sat_sub(height as int, sat_double(s));
        band(width, top_rows, 0) + (if middle > 0 {
            seq![(0int, s, width as int, middle)]
        } else {
            Seq::empty()
        }) + band(width, top_rows.reverse(), s + middle)
    }
}

/// A rectangle as plain integers.
pub open spec fn rect_view(r: (u16, u16, u16, u16)) -> (int, int, int, int) {
    (r.0 as int, r.1 as int, r.2 as int, r.3 as int)
}

proof fn lemma_rows_total_bound(rows: Seq<(u16, u16)>, k: int)
    requires
        0 <= k <= rows.len(),
    ensures
        0 <= rows_total(rows.take(k)) <= rows_total(rows),
    decreases rows.len() - k,
{
    if k < rows.len() {
        lemma_rows_total_bound(rows, k + 1);
        assert(rows.take(k + 1).drop_last() =~= rows.take(k));
    } else {
        assert(rows.take(k) =~= rows);
    }
    lemma_rows_total_nonneg(rows.take(k));
}

proof fn lemma_rows_total_nonneg(rows: Seq<(u16, u16)>)
    ensures
        rows_total(rows) >= 0,
    decreases rows.len(),
{
    if rows.len() > 0 {
        lemma_rows_total_nonneg(rows.drop_last());
    }
}

proof fn lemma_rows_total_reverse(rows: Seq<(u16, u16)>)
    ensures
        rows_total(rows.reverse()) == rows_total(rows),
    decreases rows.len(),
{
    if rows.len() > 0 {
        let t = rows.drop_last();
        lemma_rows_total_reverse(t);
        assert(rows.reverse() =~= seq![rows.last()] + t.reverse());
        lemma_rows_total_front(rows.last(), t.reverse());
    }
}

proof fn lemma_rows_total_front(x: (u16, u16), rows: Seq<(u16, u16)>)
    ensures
        rows_total(seq![x] + rows) == x.1 + rows_total(rows),
    decreases rows.len(),
{
    if rows.len() == 0 {
        let u = seq![x] + rows;
        assert(u.drop_last() =~= Seq::<(u16, u16)>::empty());
        assert(u.last() == x);
        assert(rows_total(u.drop_last()) == 0);
        assert(rows_total(u) == rows_total(u.drop_last()) + u.last().1);
    } else {
        let u = seq![x] + rows;
        lemma_rows_total_front(x, rows.drop_last());
        assert(u.drop_last() =~= seq![x] + rows.drop_last());
        assert(u.last() == rows.last());
        assert(rows_total(u) == rows_total(u.drop_last()) + u.last().1);
        assert(rows_total(rows) == rows_total(rows.drop_last()) + rows.last().1);
    }
}

fn saturating_double(x: u16) -> (r: u16)
    ensures
        r as int == sat_double(x as int),
{
    if x <= 32767 {
        x * 2
    } else {
        0xFFFF
    }
}

fn push_run(out: &mut Vec<(u16, u16, u16, u16)>, width: u16, run: (u16, u16), y: u16)
    ensures
        final(out)@.map_values(|r: (u16, u16, u16, u16)| rect_view(r)) == old(out)@.map_values(
            |r: (u16, u16, u16, u16)| rect_view(r),
        ) + run_rect(width, run, y as int),
{
    let ghost before = out@.map_values(|r: (u16, u16, u16, u16)| rect_view(r));
    let double = saturating_double(run.0);
    let row_width = width.saturating_sub(double);
    if row_width > 0 {
        out.push((run.0, y, row_width, run.1));
        assert(out@.map_values(|r: (u16, u16, u16, u16)| rect_view(r)) =~= before + run_rect(
            width,
            run,
            y as int,
        ));
    } else {
        assert(before + run_rect(width, run, y as int) =~= before);
    }
}

/// The rectangles whose union is the window's shape on X11, from the window's size, whether it
/// is maximized, and the runs of rows of one rounded corner (inset, rows), top down, that the
/// corner radius gives; those runs cover as many rows as the radius is long.
pub fn x11_window_shape_rectangles(
    width: u16,
    height: u16,
    is_maximized: bool,
    top_rows: &Vec<(u16, u16)>,
) -> (r: Vec<(u16, u16, u16, u16)>)
    requires
        !(is_maximized || width <= 1 || height <= 1 || corner_radius(width, height) <= 1)
            ==> rows_total(top_rows@) == corner_radius(width, height),
    ensures
        r@.map_values(|x: (u16, u16, u16, u16)| rect_view(x)) == shape_rects(
            width,
            height,
            is_maximized,
            top_rows@,
        ),
{
    let mut out: Vec<(u16, u16, u16, u16)> = Vec::new();
    if is_maximized || width <= 1 || height <= 1 {
        out.push((0, 0, width, height));
        assert(out@.map_values(|x: (u16, u16, u16, u16)| rect_view(x)) =~= shape_rects(
            width,
            height,
            is_maximized,
            top_rows@,
        ));
        return out;
    }
    let radius = x11_corner_radius(width, height);
    if radius <= 1 {
        out.push((0, 0, width, height));
        assert(out@.map_values(|x: (u16, u16, u16, u16)| rect_view(x)) =~= shape_rects(
            width,
            height,
            is_maximized,
            top_rows@,
        ));
        return out;
    }
    let ghost rows = top_rows@;
    let n = top_rows.len();
    let mut y: u16 = 0;
    let mut k: usize = 0;
    assert(rows.take(0) =~= Seq::<(u16, u16)>::empty());
    while k < n
        invariant
            n == rows.len(),
            rows == top_rows@,
            rows_total(rows) == corner_radius(width, height),
            corner_radius(width, height) <= 14,
            k <= n,
            y as int == rows_total(rows.take(k as int)),
            out@.map_values(|x: (u16, u16, u16, u16)| rect_view(x)) == band(
                width,
                rows.take(k as int),
                0,
            ),
        decreases n - k,
    {
        let run = top_rows[k];
        assert(rows.take(k + 1).drop_last() =~= rows.take(k as int));
        assert(rows.take(k + 1).last() == run);
        proof {
            lemma_rows_total_bound(rows, k + 1);
        }
        push_run(&mut out, width, run, y);
        y = y + run.1;
        k = k + 1;
    }
    assert(rows.take(n as int) =~= rows);
    let s = y;
    let middle = height.saturating_sub(saturating_double(s));
    let ghost top = out@.map_values(|x: (u16, u16, u16, u16)| rect_view(x));
    if middle > 0 {
        out.push((0, y, width, middle));
    }
    let ghost mid = out@.map_values(|x: (u16, u16, u16, u16)| rect_view(x));
    assert(mid =~= top + (if middle > 0 {
        seq![(0int, s as int, width as int, middle as int)]
    } else {
        Seq::<(int, int, int, int)>::empty()
    }));
    y = y + middle;
    let ghost rev = rows.reverse();
    proof {
        lemma_rows_total_reverse(rows);
        assert(s as int == corner_radius(width, height));
        assert(2 * s <= height);
        assert(middle as int == height - 2 * s);
    }
    let mut j: usize = 0;
    assert(rev.take(0) =~= Seq::<(u16, u16)>::empty());
    assert(mid + band(width, rev.take(0), (s + middle) as int) =~= mid);
    while j < n
        invariant
            n == rows.len(),
            rows == top_rows@,
            rev == rows.reverse(),
            rows_total(rev) == corner_radius(width, height),
            corner_radius(width, height) <= 14,
            (s + middle) as int + rows_total(rev) <= height,
            j <= n,
            y as int == s + middle + rows_total(rev.take(j as int)),
            out@.map_values(|x: (u16, u16, u16, u16)| rect_view(x)) == mid + band(
                width,
                rev.take(j as int),
                (s + middle) as int,
            ),
        decreases n - j,
    {
        let run = top_rows[n - 1 - j];
        assert(rev[j as int] == run);
        assert(rev.take(j + 1).drop_last() =~= rev.take(j as int));
        assert(rev.take(j + 1).last() == run);
        proof {
            lemma_rows_total_bound(rev, j + 1);
        }
        let ghost before = out@.map_values(|x: (u16, u16, u16, u16)| rect_view(x));
        push_run(&mut out, width, run, y);
        y = y + run.1;
        j = j + 1;
    }
    assert(rev.take(n as int) =~= rev);
    out
}

} // verus!
