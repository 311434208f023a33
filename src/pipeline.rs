use vstd::prelude::*;
use crate::command::Operation;

verus! {

/// The bound that normalization fits both sides of a raster into.
pub const MAX_SIDE: u64 = 1024;

/// Width and height of a raster, in pixels.
#[derive(Clone, Copy, Debug, PartialEq, Eq, Structural)]
pub struct Size {
    pub width: u64,
    pub height: u64,
}

pub open spec fn within_bound(s: Size) -> bool {
    s.width <= MAX_SIDE && s.height <= MAX_SIDE
}

/// The longer side becomes `MAX_SIDE`; the other is scaled by the same ratio,
/// rounded down, and kept at least one pixel.
pub open spec fn fitted(s: Size) -> Size {
    if s.width > s.height {
        Size { width: MAX_SIDE, height: vstd::math::max(1, s.height as int * MAX_SIDE as int / s.width as int) as u64 }
    } else {
        Size { width: vstd::math::max(1, s.width as int * MAX_SIDE as int / s.height as int) as u64, height: MAX_SIDE }
    }
}

/// The size after normalization: unchanged within the bound, fitted to it otherwise.
pub open spec fn normalized(s: Size) -> Size {
    if within_bound(s) {
        s
    } else {
        fitted(s)
    }
}

/// Fits a size over the bound into a `MAX_SIDE` square, keeping the aspect ratio.
pub fn fit_size(s: Size) -> (r: Size)
    requires
        !within_bound(s),
    ensures
        r == fitted(s),
{
    if s.width > s.height {
        proof {
            let (a, b, m) = (s.height as int, s.width as int, MAX_SIDE as int);
            lemma_floor(a * m, b);
            let q = a * m / b;
            assert(q <= m) by (nonlinear_arith) requires q * b <= a * m, a < b, b > 0, m > 0, a >= 0;
            assert(a * m <= u64::MAX as int * m) by (nonlinear_arith) requires a <= u64::MAX, m > 0;
        }
        let h = (s.height as u128) * (MAX_SIDE as u128) / (s.width as u128);
        let h = if h < 1 { 1u64 } else { h as u64 };
        Size { width: MAX_SIDE, height: h }
    } else {
        proof {
            let (a, b, m) = (s.width as int, s.height as int, MAX_SIDE as int);
            lemma_floor(a * m, b);
            let q = a * m / b;
            assert(q <= m) by (nonlinear_arith) requires q * b <= a * m, a <= b, b > 0, m > 0;
            assert(a * m <= u64::MAX as int * m) by (nonlinear_arith) requires a <= u64::MAX, m > 0;
        }
        let w = (s.width as u128) * (MAX_SIDE as u128) / (s.height as u128);
        let w = if w < 1 { 1u64 } else { w as u64 };
        Size { width: w, height: MAX_SIDE }
    }
}

/// Normalized sides stay within the bound and keep the aspect ratio up to rounding:
/// the cross products `new_width * height` and `new_height * width` differ by less
/// than the longer original side.
pub proof fn lemma_fitted_bounded(s: Size)
    requires
        s.width >= 1,
        s.height >= 1,
        !within_bound(s),
    ensures
        within_bound(normalized(s)),
        normalized(s).width >= 1,
        normalized(s).height >= 1,
        ({
            let r = normalized(s);
            let d = r.width * s.height - r.height * s.width;
            -vstd::math::max(s.width as int, s.height as int) < d < vstd::math::max(s.width as int, s.height as int)
        }),
{
    let w = s.width as int;
    let h = s.height as int;
    let m = MAX_SIDE as int;
    if w > h {
        let q = h * m / w;
        lemma_floor(h * m, w);
        assert(q < m) by (nonlinear_arith) requires q * w <= h * m, h < w, w > 0, m > 0, h >= 0;
        let r = normalized(s);
        assert(r.width == m);
        assert(r.height as int == if q < 1 { 1 } else { q });
        if q < 1 {
            assert(q == 0);
            assert(h * m < w) by (nonlinear_arith) requires h * m < q * w + w, q == 0;
        }
    } else {
        let q = w * m / h;
        lemma_floor(w * m, h);
        assert(q <= m) by (nonlinear_arith) requires q * h <= w * m, w <= h, h > 0, m > 0;
        let r = normalized(s);
        assert(r.height == m);
        assert(r.width as int == if q < 1 { 1 } else { q });
        if q < 1 {
            assert(q == 0);
            assert(w * m < h) by (nonlinear_arith) requires w * m < q * h + h, q == 0;
            assert(w * m > 0) by (nonlinear_arith) requires w >= 1, m > 0;
        }
    }
}

proof fn lemma_floor(a: int, b: int)
    requires
        a >= 0,
        b > 0,
    ensures
        0 <= a / b,
        (a / b) * b <= a < (a / b) * b + b,
{
    vstd::arithmetic::div_mod::lemma_fundamental_div_mod(a, b);
    vstd::arithmetic::div_mod::lemma_mod_pos_bound(a, b);
    vstd::arithmetic::div_mod::lemma_div_pos_is_pos(a, b);
    assert((a / b) * b == b * (a / b)) by (nonlinear_arith);
}

/// A size within the bound is left as it is.
pub proof fn lemma_within_bound_unchanged(s: Size)
    requires
        within_bound(s),
    ensures
        normalized(s) == s,
{
}

/// One call on the image engine.
#[derive(Clone, Copy, Debug, PartialEq, Eq, Structural)]
pub enum Action {
    /// Resize to the given size.
    Resize(Size),
    /// Vertical flip.
    Flip,
    /// Horizontal flip.
    Flop,
    /// Reduce the palette to 16 colours by clustering.
    Quantize,
    /// Rotate by 45 degrees, filling with transparency.
    Rotate,
    /// Sharpen.
    Sharpen,
    /// Raise the saturation, brightness and hue kept.
    Saturate,
    /// Content-aware rescale to the given size.
    LiquidRescale(Size),
}

/// The engine calls that carry out one operation, given the raster's current size
/// and the size it had before normalization.
pub open spec fn actions_of(op: Operation, current: Size, original: Size) -> Seq<Action> {
    match op {
        Operation::Flip => seq![Action::Flip],
        Operation::Mirror => seq![Action::Flop],
        Operation::Quantize => seq![Action::Quantize],
        Operation::Rotate => seq![Action::Rotate],
        Operation::Fry => seq![Action::Sharpen, Action::Saturate],
        Operation::LiquidRescale => seq![
            Action::LiquidRescale(Size { width: current.width / 2, height: current.height / 2 }),
            Action::LiquidRescale(original),
        ],
        Operation::Unknown => seq![],
    }
}

/// The size after an action, where the action determines it; a rotation leaves it to
/// the engine.
pub open spec fn size_after(a: Action, s: Size) -> Option<Size> {
    match a {
        Action::Resize(t) => Some(t),
        Action::LiquidRescale(t) => Some(t),
        Action::Rotate => None,
        _ => Some(s),
    }
}

/// The size after a sequence of actions, where they determine it.
pub open spec fn size_after_all(acts: Seq<Action>, s: Size) -> Option<Size>
    decreases acts.len(),
{
    if acts.len() == 0 {
        Some(s)
    } else {
        match size_after_all(acts.drop_last(), s) {
            Some(t) => size_after(acts.last(), t),
            None => None,
        }
    }
}

/// Pixel rows (top first) in reverse order: the raster mirrored across its horizontal axis.
pub open spec fn flipped<P>(rows: Seq<Seq<P>>) -> Seq<Seq<P>> {
    Seq::new(rows.len(), |i: int| rows[rows.len() - 1 - i])
}

/// Pixel rows with each row reversed: the raster mirrored across its vertical axis.
pub open spec fn mirrored<P>(rows: Seq<Seq<P>>) -> Seq<Seq<P>> {
    rows.map_values(|row: Seq<P>| Seq::new(row.len(), |j: int| row[row.len() - 1 - j]))
}

/// The pixels after an action, for the actions that only move pixels.
pub open spec fn pixels_after<P>(a: Action, rows: Seq<Seq<P>>) -> Option<Seq<Seq<P>>> {
    match a {
        Action::Flip => Some(flipped(rows)),
        Action::Flop => Some(mirrored(rows)),
        _ => None,
    }
}

/// The pixels after a sequence of actions that only move pixels.
pub open spec fn pixels_after_all<P>(acts: Seq<Action>, rows: Seq<Seq<P>>) -> Option<Seq<Seq<P>>>
    decreases acts.len(),
{
    if acts.len() == 0 {
        Some(rows)
    } else {
        match pixels_after_all(acts.drop_last(), rows) {
            Some(t) => pixels_after(acts.last(), t),
            None => None,
        }
    }
}

/// The plan for one conversion: it holds the size that the raster had when decoded.
#[derive(Clone, Copy, Debug, PartialEq, Eq, Structural)]
pub struct Pipeline {
    pub original: Size,
}

impl Pipeline {
    /// Starts a conversion of a raster of the given decoded size.
    pub fn new(original: Size) -> (r: Pipeline)
        ensures
            r.original == original,
    {
        Pipeline { original }
    }

    /// The resize that normalization asks for, if any: none within the bound.
    pub fn normalization(&self) -> (r: Option<Size>)
        ensures
            within_bound(self.original) ==> r is None,
            !within_bound(self.original) ==> r == Some(fitted(self.original)),
    {
        if self.original.width <= MAX_SIDE && self.original.height <= MAX_SIDE {
            None
        } else {
            Some(fit_size(self.original))
        }
    }

    /// The size of the raster once normalized.
    pub fn normalized_size(&self) -> (r: Size)
        ensures
            r == normalized(self.original),
    {
        match self.normalization() {
            Some(s) => s,
            None => self.original,
        }
    }

    /// The engine calls for `op` on a raster whose size is now `current`.
    pub fn actions(&self, op: Operation, current: Size) -> (r: Vec<Action>)
        ensures
            r@ == actions_of(op, current, self.original),
    {
        match op {
            Operation::Flip => vec![Action::Flip],
            Operation::Mirror => vec![Action::Flop],
            Operation::Quantize => vec![Action::Quantize],
            Operation::Rotate => vec![Action::Rotate],
            Operation::Fry => vec![Action::Sharpen, Action::Saturate],
            Operation::LiquidRescale => vec![
                Action::LiquidRescale(Size { width: current.width / 2, height: current.height / 2 }),
                Action::LiquidRescale(self.original),
            ],
            Operation::Unknown => Vec::new(),
        }
    }
}

/// A content-aware round trip ends at the size the raster had before normalization,
/// whatever size it started from.
pub proof fn lemma_liquid_restores_size(p: Pipeline, current: Size)
    ensures
        size_after_all(actions_of(Operation::LiquidRescale, current, p.original), current) == Some(
            p.original,
        ),
{
    let acts = actions_of(Operation::LiquidRescale, current, p.original);
    assert(acts.drop_last() =~= seq![acts[0]]);
    assert(acts.drop_last().drop_last() =~= Seq::<Action>::empty());
    reveal_with_fuel(size_after_all, 3);
}

/// Flipping twice gives back the pixels exactly.
pub proof fn lemma_flip_twice<P>(p: Pipeline, a: Size, b: Size, rows: Seq<Seq<P>>)
    ensures
        pixels_after_all(
            actions_of(Operation::Flip, a, p.original) + actions_of(Operation::Flip, b, p.original),
            rows,
        ) == Some(rows),
{
    let acts = actions_of(Operation::Flip, a, p.original) + actions_of(Operation::Flip, b, p.original);
    assert(acts =~= seq![Action::Flip, Action::Flip]);
    assert(acts.drop_last() =~= seq![Action::Flip]);
    assert(acts.drop_last().drop_last() =~= Seq::<Action>::empty());
    reveal_with_fuel(pixels_after_all, 3);
    assert(flipped(flipped(rows)) =~= rows);
}

/// Mirroring twice gives back the pixels exactly.
pub proof fn lemma_mirror_twice<P>(p: Pipeline, a: Size, b: Size, rows: Seq<Seq<P>>)
    ensures
        pixels_after_all(
            actions_of(Operation::Mirror, a, p.original) + actions_of(Operation::Mirror, b, p.original),
            rows,
        ) == Some(rows),
{
    let acts = actions_of(Operation::Mirror, a, p.original) + actions_of(Operation::Mirror, b, p.original);
    assert(acts =~= seq![Action::Flop, Action::Flop]);
    assert(acts.drop_last() =~= seq![Action::Flop]);
    assert(acts.drop_last().drop_last() =~= Seq::<Action>::empty());
    reveal_with_fuel(pixels_after_all, 3);
    let m = mirrored(mirrored(rows));
    assert forall|i: int| 0 <= i < rows.len() implies m[i] == rows[i] by {
        assert(m[i] =~= rows[i]);
    }
    assert(m =~= rows);
}

/// An unknown token asks the engine for nothing, so the raster stays as normalized.
pub proof fn lemma_unknown_is_no_op<P>(p: Pipeline, current: Size, rows: Seq<Seq<P>>)
    ensures
        actions_of(Operation::Unknown, current, p.original) == Seq::<Action>::empty(),
        pixels_after_all(actions_of(Operation::Unknown, current, p.original), rows) == Some(rows),
        size_after_all(actions_of(Operation::Unknown, current, p.original), current) == Some(current),
{
}

} // verus!
