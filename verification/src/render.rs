//! The render pass as a state machine.
//!
//! A pass visits the cells of a frame in row-major order. The caller asks
//! for the next cell, traces the ray through it, and delivers what the ray
//! resolved to; the pass writes the cell and moves on. Every cell is written
//! exactly once, and a write never touches another cell.

use vstd::prelude::*;
use crate::frame::{lemma_index_in_bounds, neutral_gray, Frame, FrameView, Rgb};
use crate::scene::{is_nearest, RayIntersection};

verus! {

/// The color of a pixel: the shaded color where the primary ray resolved to
/// a hit, the background, untouched by lighting, where it did not.
pub open spec fn resolved_color(traced: Option<Rgb>, background: Rgb) -> Rgb {
    match traced {
        Some(color) => color,
        None => background,
    }
}

/// What a render pass is: the frame so far, the background color, and the
/// number of cells already written.
pub struct PassView {
    pub frame: FrameView,
    pub background: Rgb,
    pub cursor: nat,
}

impl PassView {
    /// The pass before any cell is written.
    pub open spec fn initial(width: nat, height: nat, background: Rgb) -> PassView {
        PassView {
            frame: FrameView {
                width,
                height,
                pixels: Seq::new(width * height, |k: int| neutral_gray()),
            },
            background,
            cursor: 0,
        }
    }

    /// The frame is well formed and the cursor has not run past its end.
    pub open spec fn wf(self) -> bool {
        self.frame.wf() && self.cursor <= self.frame.pixels.len()
    }

    /// Every cell has been written.
    pub open spec fn done(self) -> bool {
        self.cursor == self.frame.pixels.len()
    }

    /// The pass after the result for the cell under the cursor is delivered:
    /// that cell holds the resolved color, every other cell is as before,
    /// and the cursor stands on the next cell.
    pub open spec fn deliver(self, traced: Option<Rgb>) -> PassView {
        PassView {
            frame: FrameView {
                pixels: self.frame.pixels.update(
                    self.cursor as int,
                    resolved_color(traced, self.background),
                ),
                ..self.frame
            },
            cursor: self.cursor + 1,
            ..self
        }
    }

    /// The pass after a run of results is delivered, one cell each.
    pub open spec fn deliver_all(self, traced: Seq<Option<Rgb>>) -> PassView
        decreases traced.len(),
    {
        if traced.len() == 0 {
            self
        } else {
            self.deliver_all(traced.drop_last()).deliver(traced.last())
        }
    }
}

/// A render pass over a frame.
pub struct RenderPass {
    frame: Frame,
    background: Rgb,
    cursor: usize,
}

impl View for RenderPass {
    type V = PassView;

    closed spec fn view(&self) -> PassView {
        PassView { frame: self.frame@, background: self.background, cursor: self.cursor as nat }
    }
}

impl RenderPass {
    /// Starts a pass over a fresh `width` by `height` frame.
    pub fn new(width: usize, height: usize, background: Rgb) -> (pass: RenderPass)
        requires
            width * height <= usize::MAX,
        ensures
            pass@.wf(),
            pass@ == PassView::initial(width as nat, height as nat, background),
    {
        let frame = Frame::new(width, height);
        proof {
            assert(frame@.pixels =~= Seq::new(
                (width as nat) * (height as nat),
                |k: int| neutral_gray(),
            ));
        }
        RenderPass { frame, background, cursor: 0 }
    }

    /// The cell to trace next, as column and row, or `None` when every cell
    /// has been written.
    pub fn next_pixel(&self) -> (cell: Option<(usize, usize)>)
        requires
            self@.wf(),
        ensures
            cell is None <==> self@.done(),
            match cell {
                Some((x, y)) => self@.frame.contains(x as int, y as int) && self@.frame.index_of(
                    x as int,
                    y as int,
                ) == self@.cursor,
                None => true,
            },
    {
        let width: usize = self.frame.width();
        let height: usize = self.frame.height();
        let cells: usize = self.frame.pixels().len();
        if self.cursor >= cells {
            return None;
        }
        assert(width > 0) by (nonlinear_arith)
            requires
                self.cursor < width * height,
        ;
        let x: usize = self.cursor % width;
        let y: usize = self.cursor / width;
        proof {
            let c = self.cursor as int;
            let w = width as int;
            vstd::arithmetic::div_mod::lemma_fundamental_div_mod(c, w);
            assert(w * y + x == y * w + x) by (nonlinear_arith);
            if y >= height {
                assert(y * w >= height * w) by (nonlinear_arith)
                    requires
                        y >= height,
                        w > 0,
                ;
                assert(height * w == w * height) by (nonlinear_arith);
            }
        }
        Some((x, y))
    }

    /// Delivers the result of the cell under the cursor: the shaded color of
    /// the nearest hit, or `None` where the primary ray resolved to no hit.
    /// The cell is written once and the cursor moves to the next cell.
    pub fn deliver(&mut self, traced: Option<Rgb>)
        requires
            old(self)@.wf(),
            !old(self)@.done(),
        ensures
            final(self)@.wf(),
            final(self)@ == old(self)@.deliver(traced),
    {
        let color = match traced {
            Some(color) => color,
            None => self.background,
        };
        let cells: usize = self.frame.pixels().len();
        match self.next_pixel() {
            Some((x, y)) => {
                assert(self.cursor < cells);
                self.frame.set_pixel_rgb(x, y, color);
                self.cursor = self.cursor + 1;
            },
            None => {},
        }
    }

    /// The number of cells already written.
    pub fn written(&self) -> (count: usize)
        ensures
            count == self@.cursor,
    {
        self.cursor
    }

    /// Ends the pass and hands the frame out.
    pub fn finish(self) -> (frame: Frame)
        ensures
            frame@ == self@.frame,
    {
        self.frame
    }
}

/// Delivering a run of results writes the cells from the cursor on, each
/// with its own result, and leaves every other cell as it was.
pub proof fn lemma_deliver_all(pass: PassView, traced: Seq<Option<Rgb>>)
    requires
        pass.wf(),
        pass.cursor + traced.len() <= pass.frame.pixels.len(),
    ensures
        pass.deliver_all(traced).wf(),
        pass.deliver_all(traced).cursor == pass.cursor + traced.len(),
        pass.deliver_all(traced).background == pass.background,
        pass.deliver_all(traced).frame.width == pass.frame.width,
        pass.deliver_all(traced).frame.height == pass.frame.height,
        pass.deliver_all(traced).frame.pixels.len() == pass.frame.pixels.len(),
        forall|k: int|
            pass.cursor <= k < pass.cursor + traced.len() ==> #[trigger] pass.deliver_all(
                traced,
            ).frame.pixels[k] == resolved_color(traced[k - pass.cursor], pass.background),
        forall|k: int|
            0 <= k < pass.frame.pixels.len() && !(pass.cursor <= k < pass.cursor + traced.len())
                ==> #[trigger] pass.deliver_all(traced).frame.pixels[k] == pass.frame.pixels[k],
    decreases traced.len(),
{
    if traced.len() > 0 {
        lemma_deliver_all(pass, traced.drop_last());
    }
}

/// A complete pass writes every cell of the frame with the color that its
/// own ray resolved to.
pub proof fn lemma_complete_pass(
    width: nat,
    height: nat,
    background: Rgb,
    traced: Seq<Option<Rgb>>,
)
    requires
        traced.len() == width * height,
    ensures
        PassView::initial(width, height, background).deliver_all(traced).done(),
        PassView::initial(width, height, background).deliver_all(traced).frame.wf(),
        PassView::initial(width, height, background).deliver_all(traced).frame.width == width,
        PassView::initial(width, height, background).deliver_all(traced).frame.height == height,
        forall|k: int|
            0 <= k < width * height ==> #[trigger] PassView::initial(
                width,
                height,
                background,
            ).deliver_all(traced).frame.pixels[k] == resolved_color(traced[k], background),
{
    lemma_deliver_all(PassView::initial(width, height, background), traced);
}

/// A traced result follows the nearest-hit query when the pixel is shaded
/// exactly where its primary ray resolves to a hit. `hits` are the
/// intersections of the primary ray with every primitive of the scene.
pub open spec fn follows_query(
    hits: Seq<RayIntersection>,
    cutoff: i64,
    traced: Option<Rgb>,
) -> bool {
    traced is Some <==> exists|i: int| is_nearest(hits, cutoff, i)
}

/// A scene without primitives renders to its background: there is nothing
/// for a ray to hit, so no pixel is shaded, and a complete pass leaves the
/// background color in every cell.
pub proof fn lemma_empty_scene_renders_background(
    width: nat,
    height: nat,
    background: Rgb,
    cutoff: i64,
    hits: Seq<Seq<RayIntersection>>,
    traced: Seq<Option<Rgb>>,
)
    requires
        traced.len() == width * height,
        hits.len() == width * height,
        forall|k: int| 0 <= k < hits.len() ==> (#[trigger] hits[k]).len() == 0,
        forall|k: int| 0 <= k < traced.len() ==> follows_query(hits[k], cutoff, #[trigger] traced[k]),
    ensures
        PassView::initial(width, height, background).deliver_all(traced).done(),
        forall|k: int|
            0 <= k < width * height ==> #[trigger] PassView::initial(
                width,
                height,
                background,
            ).deliver_all(traced).frame.pixels[k] == background,
        forall|x: int, y: int|
            0 <= x < width && 0 <= y < height ==> #[trigger] PassView::initial(
                width,
                height,
                background,
            ).deliver_all(traced).frame.at(x, y) == background,
{
    assert forall|k: int| 0 <= k < traced.len() implies (#[trigger] traced[k]) is None by {
        assert(hits[k].len() == 0);
        assert(follows_query(hits[k], cutoff, traced[k]));
        assert(forall|i: int| !is_nearest(hits[k], cutoff, i));
    }
    lemma_complete_pass(width, height, background, traced);
    let end = PassView::initial(width, height, background).deliver_all(traced);
    assert forall|x: int, y: int| 0 <= x < width && 0 <= y < height implies #[trigger] end.frame.at(
        x,
        y,
    ) == background by {
        lemma_index_in_bounds(width, height, x, y);
    }
}

} // verus!
