use vstd::prelude::*;

verus! {

/// The direction a background layer scrolls in.
#[derive(Clone, Copy, Debug, PartialEq, Eq, Structural)]
pub enum ScrollDir {
    Up,
    Right,
    Down,
    Left,
}

/// A part of a layer's bitmap drawn onto the canvas at the same size: the
/// source rectangle `(source_x, source_y, width, height)` goes to
/// `(dest_x, dest_y)`.
#[derive(Clone, Copy, Debug, PartialEq, Eq, Structural)]
pub struct ImagePiece {
    pub source_x: i32,
    pub source_y: i32,
    pub width: i32,
    pub height: i32,
    pub dest_x: i32,
    pub dest_y: i32,
}

/// The part of a layer that shows through the window: its edges cut to whole
/// pixels, and whether its left and top edges lie before the bitmap's.
#[derive(Clone, Copy, Debug, PartialEq, Eq, Structural)]
pub struct Viewport {
    pub left: i32,
    pub top: i32,
    pub right: i32,
    pub bottom: i32,
    pub left_negative: bool,
    pub top_negative: bool,
}

pub open spec fn piece(sx: int, sy: int, w: int, h: int, dx: int, dy: int) -> ImagePiece {
    ImagePiece {
        source_x: sx as i32,
        source_y: sy as i32,
        width: w as i32,
        height: h as i32,
        dest_x: dx as i32,
        dest_y: dy as i32,
    }
}

pub open spec fn fits(v: int) -> bool {
    i32::MIN <= v <= i32::MAX
}

/// True when the pieces for this viewport can be computed in `i32`: every sum
/// and difference the chosen case computes fits.
pub open spec fn pieces_fit(v: Viewport, w: int, h: int, x: int, y: int) -> bool {
    let (l, t, r, b) = (v.left as int, v.top as int, v.right as int, v.bottom as int);
    if v.top_negative && v.left_negative {
        fits(w + l) && fits(h + t) && fits(-l) && fits(-t) && fits(x - l) && fits(y - t)
    } else if v.top_negative && r > w {
        fits(h + t) && fits(w - l) && fits(-t) && fits(r - w) && fits(x + (w - l)) && fits(y - t)
    } else if b > h && v.left_negative {
        fits(w + l) && fits(-l) && fits(h - t) && fits(x - l) && fits(b - h) && fits(y + (h - t))
    } else if b > h && r > w {
        fits(w - l) && fits(h - t) && fits(r - w) && fits(x + (w - l)) && fits(b - h) && fits(
            y + (h - t),
        )
    } else if v.top_negative {
        fits(h + t) && fits(r - l) && fits(-t) && fits(y - t)
    } else if r > w {
        fits(w - l) && fits(b - t) && fits(r - w) && fits(x + (w - l))
    } else if b > h {
        fits(r - l) && fits(h - t) && fits(b - h) && fits(y + (h - t))
    } else if v.left_negative {
        fits(w + l) && fits(-l) && fits(b - t) && fits(x - l)
    } else {
        fits(r - l) && fits(b - t)
    }
}

/// A viewport as a layer keeps it: no larger than the bitmap; a left edge
/// before the bitmap's only together with a right edge at or after it, and a
/// left edge that does not lie before the bitmap no further than its right
/// edge (the same for the top); a bitmap that is not empty.
pub open spec fn viewport_ok(v: Viewport, w: int, h: int) -> bool {
    let (l, t, r, b) = (v.left as int, v.top as int, v.right as int, v.bottom as int);
    &&& 0 < w && 0 < h
    &&& l <= r && r - l <= w
    &&& t <= b && b - t <= h
    &&& v.left_negative ==> l <= 0 && 0 <= r
    &&& !v.left_negative ==> 0 <= l <= w
    &&& v.top_negative ==> t <= 0 && 0 <= b
    &&& !v.top_negative ==> 0 <= t <= h
}

/// The piece lands inside the viewport's place on the canvas, a `vw` by `vh`
/// rectangle at `(x, y)`, and has no negative size.
pub open spec fn inside_view(p: ImagePiece, x: int, y: int, vw: int, vh: int) -> bool {
    &&& p.width >= 0 && p.height >= 0
    &&& x <= p.dest_x && p.dest_x + p.width <= x + vw
    &&& y <= p.dest_y && p.dest_y + p.height <= y + vh
}

/// The piece is cut from the `w` by `h` bitmap.
pub open spec fn inside_bitmap(p: ImagePiece, w: int, h: int) -> bool {
    &&& 0 <= p.source_x && p.source_x + p.width <= w
    &&& 0 <= p.source_y && p.source_y + p.height <= h
}

/// The two pieces do not overlap on the canvas.
pub open spec fn apart(p: ImagePiece, q: ImagePiece) -> bool {
    ||| p.dest_x + p.width <= q.dest_x
    ||| q.dest_x + q.width <= p.dest_x
    ||| p.dest_y + p.height <= q.dest_y
    ||| q.dest_y + q.height <= p.dest_y
}

/// A non-empty piece shows the bitmap wrapped around: the canvas point `d`
/// places of the viewport's corner away shows the bitmap point at the
/// viewport's corner plus `d`, taken modulo the bitmap's size.
pub open spec fn shows_wrapped(p: ImagePiece, l: int, t: int, w: int, h: int, x: int, y: int) -> bool {
    p.width > 0 && p.height > 0 ==> p.source_x == (l + (p.dest_x - x)) % w && p.source_y == (t
        + (p.dest_y - y)) % h
}

pub open spec fn area(ps: Seq<ImagePiece>) -> int
    decreases ps.len(),
{
    if ps.len() == 0 {
        0
    } else {
        area(ps.drop_last()) + ps.last().width * ps.last().height
    }
}

/// The pieces tile the viewport's place on the canvas: each lies inside it,
/// no two overlap, and together they cover its whole area; each is cut from
/// the bitmap, at the place that the wrapped-around bitmap shows there.
pub open spec fn tiles(ps: Seq<ImagePiece>, v: Viewport, w: int, h: int, x: int, y: int) -> bool {
    let (l, t, r, b) = (v.left as int, v.top as int, v.right as int, v.bottom as int);
    &&& forall|i: int|
        0 <= i < ps.len() ==> inside_view(#[trigger] ps[i], x, y, r - l, b - t) && inside_bitmap(
            ps[i],
            w,
            h,
        ) && shows_wrapped(ps[i], l, t, w, h, x, y)
    &&& forall|i: int, j: int| 0 <= i < j < ps.len() ==> apart(#[trigger] ps[i], #[trigger] ps[j])
    &&& area(ps) == (r - l) * (b - t)
}

/// The pieces that show a layer of a `w` by `h` bitmap through the viewport `v`
/// at `(x, y)`. Where the viewport runs past an edge of the bitmap, the bitmap
/// wraps around: the part past the edge is taken from the opposite side.
pub open spec fn layer_pieces(v: Viewport, w: int, h: int, x: int, y: int) -> Seq<ImagePiece> {
    let (l, t, r, b) = (v.left as int, v.top as int, v.right as int, v.bottom as int);
    if v.top_negative && v.left_negative {
        seq![
            piece(w + l, h + t, -l, -t, x, y),
            piece(0, h + t, r, -t, x - l, y),
            piece(w + l, 0, -l, b, x, y - t),
            piece(0, 0, r, b, x - l, y - t),
        ]
    } else if v.top_negative && r > w {
        seq![
            piece(l, h + t, w - l, -t, x, y),
            piece(0, h + t, r - w, -t, x + (w - l), y),
            piece(l, 0, w - l, b, x, y - t),
            piece(0, 0, r - w, b, x + (w - l), y - t),
        ]
    } else if b > h && v.left_negative {
        seq![
            piece(w + l, t, -l, h - t, x, y),
            piece(0, t, r, h - t, x - l, y),
            piece(w + l, 0, -l, b - h, x, y + (h - t)),
            piece(0, 0, r, b - h, x - l, y + (h - t)),
        ]
    } else if b > h && r > w {
        seq![
            piece(l, t, w - l, h - t, x, y),
            piece(0, t, r - w, h - t, x + (w - l), y),
            piece(l, 0, w - l, b - h, x, y + (h - t)),
            piece(0, 0, r - w, b - h, x + (w - l), y + (h - t)),
        ]
    } else if v.top_negative {
        seq![piece(l, h + t, r - l, -t, x, y), piece(l, 0, r - l, b, x, y - t)]
    } else if r > w {
        let tail = seq![piece(0, t, r - w, b - t, x + (w - l), y)];
        if w - l > 0 && b - t > 0 {
            seq![piece(l, t, w - l, b - t, x, y)] + tail
        } else {
            tail
        }
    } else if b > h {
        seq![piece(l, t, r - l, h - t, x, y), piece(l, 0, r - l, b - h, x, y + (h - t))]
    } else if v.left_negative {
        seq![piece(w + l, t, -l, b - t, x, y), piece(0, t, r, b - t, x - l, y)]
    } else {
        seq![piece(l, t, r - l, b - t, x, y)]
    }
}

proof fn lemma_wrap(a: int, m: int)
    requires
        0 < m,
        -m <= a <= m,
    ensures
        a < 0 ==> a % m == a + m,
        0 <= a < m ==> a % m == a,
        a == m ==> a % m == 0,
{
    if a < 0 {
        vstd::arithmetic::div_mod::lemma_mod_add_multiples_vanish(a, m);
        vstd::arithmetic::div_mod::lemma_small_mod((a + m) as nat, m as nat);
    } else if a < m {
        vstd::arithmetic::div_mod::lemma_small_mod(a as nat, m as nat);
    } else {
        vstd::arithmetic::div_mod::lemma_mod_add_multiples_vanish(0, m);
        vstd::arithmetic::div_mod::lemma_small_mod(0, m as nat);
    }
}

proof fn lemma_area_four(ps: Seq<ImagePiece>)
    requires
        ps.len() == 4,
    ensures
        area(ps) == ps[0].width * ps[0].height + ps[1].width * ps[1].height + ps[2].width
            * ps[2].height + ps[3].width * ps[3].height,
{
    reveal_with_fuel(area, 5);
    assert(ps.drop_last().drop_last().drop_last().drop_last() =~= Seq::<ImagePiece>::empty());
}

proof fn lemma_area_two(ps: Seq<ImagePiece>)
    requires
        ps.len() == 2,
    ensures
        area(ps) == ps[0].width * ps[0].height + ps[1].width * ps[1].height,
{
    reveal_with_fuel(area, 3);
    assert(ps.drop_last().drop_last() =~= Seq::<ImagePiece>::empty());
}

proof fn lemma_area_one(ps: Seq<ImagePiece>)
    requires
        ps.len() == 1,
    ensures
        area(ps) == ps[0].width * ps[0].height,
{
    reveal_with_fuel(area, 2);
    assert(ps.drop_last() =~= Seq::<ImagePiece>::empty());
}

/// A viewport that a layer keeps is drawn in pieces that tile it: none of
/// negative size, none overlapping another, all together as large as the
/// viewport, each cut from the bitmap where the wrapped-around bitmap shows it.
pub proof fn lemma_pieces_tile_viewport(v: Viewport, w: int, h: int, x: int, y: int)
    requires
        viewport_ok(v, w, h),
        pieces_fit(v, w, h, x, y),
        fits(x),
        fits(y),
    ensures
        tiles(layer_pieces(v, w, h, x, y), v, w, h, x, y),
{
    let (l, t, r, b) = (v.left as int, v.top as int, v.right as int, v.bottom as int);
    let ps = layer_pieces(v, w, h, x, y);
    lemma_wrap(l, w);
    lemma_wrap(t, h);
    lemma_wrap(0, w);
    lemma_wrap(0, h);
    lemma_wrap(w, w);
    lemma_wrap(h, h);
    if v.top_negative && v.left_negative {
        lemma_area_four(ps);
        assert((-l) * (-t) + r * (-t) + (-l) * b + r * b == (r - l) * (b - t)) by (nonlinear_arith);
        assert(area(ps) == (r - l) * (b - t));
    } else if v.top_negative && r > w {
        lemma_area_four(ps);
        assert((w - l) * (-t) + (r - w) * (-t) + (w - l) * b + (r - w) * b == (r - l) * (b - t))
            by (nonlinear_arith);
        assert(area(ps) == (r - l) * (b - t));
    } else if b > h && v.left_negative {
        lemma_area_four(ps);
        assert((-l) * (h - t) + r * (h - t) + (-l) * (b - h) + r * (b - h) == (r - l) * (b - t))
            by (nonlinear_arith);
        assert(area(ps) == (r - l) * (b - t));
    } else if b > h && r > w {
        lemma_area_four(ps);
        assert((w - l) * (h - t) + (r - w) * (h - t) + (w - l) * (b - h) + (r - w) * (b - h) == (r
            - l) * (b - t)) by (nonlinear_arith);
        assert(area(ps) == (r - l) * (b - t));
    } else if v.top_negative {
        lemma_area_two(ps);
        assert((r - l) * (-t) + (r - l) * b == (r - l) * (b - t)) by (nonlinear_arith);
        assert(area(ps) == (r - l) * (b - t));
    } else if r > w {
        if w - l > 0 && b - t > 0 {
            lemma_area_two(ps);
            assert((w - l) * (b - t) + (r - w) * (b - t) == (r - l) * (b - t)) by (nonlinear_arith);
        assert(area(ps) == (r - l) * (b - t));
        } else {
            lemma_area_one(ps);
            assert((r - w) * (b - t) == (r - l) * (b - t)) by (nonlinear_arith)
                requires
                    w - l == 0 || b - t == 0,
            ;
        assert(area(ps) == (r - l) * (b - t));
        }
    } else if b > h {
        lemma_area_two(ps);
        assert((r - l) * (h - t) + (r - l) * (b - h) == (r - l) * (b - t)) by (nonlinear_arith);
        assert(area(ps) == (r - l) * (b - t));
    } else if v.left_negative {
        lemma_area_two(ps);
        assert((-l) * (b - t) + r * (b - t) == (r - l) * (b - t)) by (nonlinear_arith);
        assert(area(ps) == (r - l) * (b - t));
    } else {
        lemma_area_one(ps);
        assert(area(ps) == (r - l) * (b - t));
    }
}

fn fits64(v: i64) -> (b: bool)
    ensures
        b == fits(v as int),
{
    -0x8000_0000 <= v && v <= 0x7fff_ffff
}

/// Whether `draw_pieces` can compute the pieces for this viewport in `i32`.
pub fn pieces_fit_check(v: Viewport, width: i32, height: i32, x: i32, y: i32) -> (b: bool)
    ensures
        b == pieces_fit(v, width as int, height as int, x as int, y as int),
{
    let (l, t, r, b) = (v.left as i64, v.top as i64, v.right as i64, v.bottom as i64);
    let (w, h, x, y) = (width as i64, height as i64, x as i64, y as i64);
    if v.top_negative && v.left_negative {
        fits64(w + l) && fits64(h + t) && fits64(-l) && fits64(-t) && fits64(x - l) && fits64(
            y - t,
        )
    } else if v.top_negative && r > w {
        fits64(h + t) && fits64(w - l) && fits64(-t) && fits64(r - w) && fits64(x + (w - l))
            && fits64(y - t)
    } else if b > h && v.left_negative {
        fits64(w + l) && fits64(-l) && fits64(h - t) && fits64(x - l) && fits64(b - h) && fits64(
            y + (h - t),
        )
    } else if b > h && r > w {
        fits64(w - l) && fits64(h - t) && fits64(r - w) && fits64(x + (w - l)) && fits64(b - h)
            && fits64(y + (h - t))
    } else if v.top_negative {
        fits64(h + t) && fits64(r - l) && fits64(-t) && fits64(y - t)
    } else if r > w {
        fits64(w - l) && fits64(b - t) && fits64(r - w) && fits64(x + (w - l))
    } else if b > h {
        fits64(r - l) && fits64(h - t) && fits64(b - h) && fits64(y + (h - t))
    } else if v.left_negative {
        fits64(w + l) && fits64(-l) && fits64(b - t) && fits64(x - l)
    } else {
        fits64(r - l) && fits64(b - t)
    }
}

fn push_piece(out: &mut Vec<ImagePiece>, sx: i32, sy: i32, w: i32, h: i32, dx: i32, dy: i32)
    ensures
        final(out)@ == old(out)@.push(
            piece(sx as int, sy as int, w as int, h as int, dx as int, dy as int),
        ),
{
    out.push(
        ImagePiece { source_x: sx, source_y: sy, width: w, height: h, dest_x: dx, dest_y: dy },
    );
}

/// The pieces to draw for a layer of a `width` by `height` bitmap seen through
/// `v`, at `(x, y)`.
#[verifier::rlimit(40)]
pub fn draw_pieces(v: Viewport, width: i32, height: i32, x: i32, y: i32) -> (r: Vec<ImagePiece>)
    requires
        pieces_fit(v, width as int, height as int, x as int, y as int),
    ensures
        r@ == layer_pieces(v, width as int, height as int, x as int, y as int),
        viewport_ok(v, width as int, height as int) ==> tiles(
            r@,
            v,
            width as int,
            height as int,
            x as int,
            y as int,
        ),
{
    let (l, t, r, b) = (v.left, v.top, v.right, v.bottom);
    let (w, h) = (width, height);
    let mut out: Vec<ImagePiece> = Vec::new();
    if v.top_negative && v.left_negative {
        push_piece(&mut out, w + l, h + t, -l, -t, x, y);
        push_piece(&mut out, 0, h + t, r, -t, x - l, y);
        push_piece(&mut out, w + l, 0, -l, b, x, y - t);
        push_piece(&mut out, 0, 0, r, b, x - l, y - t);
    } else if v.top_negative && r > w {
        push_piece(&mut out, l, h + t, w - l, -t, x, y);
        push_piece(&mut out, 0, h + t, r - w, -t, x + (w - l), y);
        push_piece(&mut out, l, 0, w - l, b, x, y - t);
        push_piece(&mut out, 0, 0, r - w, b, x + (w - l), y - t);
    } else if b > h && v.left_negative {
        push_piece(&mut out, w + l, t, -l, h - t, x, y);
        push_piece(&mut out, 0, t, r, h - t, x - l, y);
        push_piece(&mut out, w + l, 0, -l, b - h, x, y + (h - t));
        push_piece(&mut out, 0, 0, r, b - h, x - l, y + (h - t));
    } else if b > h && r > w {
        push_piece(&mut out, l, t, w - l, h - t, x, y);
        push_piece(&mut out, 0, t, r - w, h - t, x + (w - l), y);
        push_piece(&mut out, l, 0, w - l, b - h, x, y + (h - t));
        push_piece(&mut out, 0, 0, r - w, b - h, x + (w - l), y + (h - t));
    } else if v.top_negative {
        push_piece(&mut out, l, h + t, r - l, -t, x, y);
        push_piece(&mut out, l, 0, r - l, b, x, y - t);
    } else if r > w {
        if w - l > 0 && b - t > 0 {
            push_piece(&mut out, l, t, w - l, b - t, x, y);
        }
        push_piece(&mut out, 0, t, r - w, b - t, x + (w - l), y);
    } else if b > h {
        push_piece(&mut out, l, t, r - l, h - t, x, y);
        push_piece(&mut out, l, 0, r - l, b - h, x, y + (h - t));
    } else if v.left_negative {
        push_piece(&mut out, w + l, t, -l, b - t, x, y);
        push_piece(&mut out, 0, t, r, b - t, x - l, y);
    } else {
        push_piece(&mut out, l, t, r - l, b - t, x, y);
    }
    proof {
        if viewport_ok(v, width as int, height as int) {
            lemma_pieces_tile_viewport(v, width as int, height as int, x as int, y as int);
        }
    }
    out
}

/// A viewport that lies within the bitmap is drawn in one piece, the viewport
/// itself, and a piece never has a negative size there.
pub proof fn lemma_inner_viewport_is_one_piece(v: Viewport, w: int, h: int, x: int, y: int)
    requires
        !v.left_negative,
        !v.top_negative,
        v.right <= w,
        v.bottom <= h,
        v.left <= v.right,
        v.top <= v.bottom,
        pieces_fit(v, w, h, x, y),
    ensures
        layer_pieces(v, w, h, x, y).len() == 1,
        layer_pieces(v, w, h, x, y)[0] == piece(
            v.left as int,
            v.top as int,
            v.right - v.left,
            v.bottom - v.top,
            x,
            y,
        ),
        layer_pieces(v, w, h, x, y)[0].width >= 0,
        layer_pieces(v, w, h, x, y)[0].height >= 0,
{
}

} // verus!
