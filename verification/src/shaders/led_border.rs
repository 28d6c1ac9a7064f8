//! Adds up the channels of the block behind each LED around the screen.

use vstd::prelude::*;

use crate::shadercomm::{AverageBuffer, DispatchParams, PixelSum};
use crate::shadercomm::{BORDER_LEDS, DEPTH, PADDING, SIDE_LEDS, TOP_LEDS};
use crate::shaders::stretches;
use crate::shaders::stretches::edge_of;
use crate::shaders::sums;

verus! {

/// Threads that work on one LED.
pub const THREADS_PER_LED: usize = 3;

/// How far apart the pixels are that a thread takes.
pub const THREAD_STRIDE: usize = 6;

/// The channels of a pixel, red first, each scaled to 255.
pub type Texel = [u32; 3];

/// The edge of the screen that an LED sits at.
#[derive(Debug, Clone, Copy, PartialEq, Eq, Structural)]
pub enum Edge {
    Left,
    Top,
    Right,
    Bottom,
}

/// A rectangle of pixels, its maxima not included.
#[derive(Debug, Clone, Copy, PartialEq, Eq, Structural)]
pub struct Block {
    pub x_min: usize,
    pub y_min: usize,
    pub x_max: usize,
    pub y_max: usize,
}

/// The LED that a thread works on and its number among that LED's threads.
pub open spec fn thread_place(local_index: int) -> (int, int) {
    (local_index / 3, local_index % 3)
}

pub fn place_of_thread(local_index: usize) -> (place: (usize, usize))
    ensures
        (place.0 as int, place.1 as int) == thread_place(local_index as int),
{
    let led_index: usize = local_index / THREADS_PER_LED;
    (led_index, local_index - led_index * THREADS_PER_LED)
}

/// The edge of an LED and its place along it. LEDs run up the left, along the top,
/// down the right and back along the bottom.
pub open spec fn led_place(led_index: int) -> Option<(Edge, int)> {
    if led_index < 47 {
        Some((Edge::Left, led_index))
    } else if led_index < 132 {
        Some((Edge::Top, led_index - 47))
    } else if led_index < 179 {
        Some((Edge::Right, led_index - 132))
    } else if led_index < 264 {
        Some((Edge::Bottom, led_index - 179))
    } else {
        None
    }
}

pub fn place_of_led(led_index: usize) -> (place: Option<(Edge, usize)>)
    ensures
        match (place, led_place(led_index as int)) {
            (Some((edge, nth)), Some((model, n))) => edge == model && nth == n,
            (None, None) => true,
            _ => false,
        },
{
    if led_index < SIDE_LEDS {
        Some((Edge::Left, led_index))
    } else if led_index < SIDE_LEDS + TOP_LEDS {
        Some((Edge::Top, led_index - SIDE_LEDS))
    } else if led_index < SIDE_LEDS * 2 + TOP_LEDS {
        Some((Edge::Right, led_index - SIDE_LEDS - TOP_LEDS))
    } else if led_index < SIDE_LEDS * 2 + TOP_LEDS * 2 {
        Some((Edge::Bottom, led_index - SIDE_LEDS * 2 - TOP_LEDS))
    } else {
        None
    }
}

/// `x` less the padding, not below zero.
pub open spec fn padded_down(x: int) -> int {
    if x < PADDING {
        0
    } else {
        x - PADDING
    }
}

/// `x` and the padding, not above `limit`.
pub open spec fn padded_up(x: int, limit: int) -> int {
    if x + PADDING > limit {
        limit
    } else {
        x + PADDING
    }
}

/// Whether an LED's stretch from `first` to `second` lies on its edge, and the
/// block goes no deeper than the screen.
pub open spec fn stretch_fits(
    edge: Edge,
    width: int,
    height: int,
    first: int,
    second: int,
) -> bool {
    &&& 0 <= first <= second
    &&& width + PADDING <= usize::MAX
    &&& height + PADDING <= usize::MAX
    &&& match edge {
        Edge::Left | Edge::Right => second <= height && DEPTH <= width,
        Edge::Top | Edge::Bottom => second <= width && DEPTH <= height,
    }
}

/// The block behind the stretch from `first` to `second` of an edge. The left and
/// the bottom run against the coordinates.
pub open spec fn block_at(edge: Edge, width: int, height: int, first: int, second: int) -> Block {
    match edge {
        Edge::Left => Block {
            x_min: 0,
            y_min: padded_down(height - second) as usize,
            x_max: DEPTH,
            y_max: padded_up(height - first, height) as usize,
        },
        Edge::Top => Block {
            x_min: padded_down(first) as usize,
            y_min: 0,
            x_max: padded_up(second, width) as usize,
            y_max: DEPTH,
        },
        Edge::Right => Block {
            x_min: (width - DEPTH) as usize,
            y_min: padded_down(first) as usize,
            x_max: width as usize,
            y_max: padded_up(second, height) as usize,
        },
        Edge::Bottom => Block {
            x_min: padded_down(width - second) as usize,
            y_min: (height - DEPTH) as usize,
            x_max: padded_up(width - first, width) as usize,
            y_max: height as usize,
        },
    }
}

fn pad_down(x: usize) -> (padded: usize)
    ensures
        padded == padded_down(x as int),
{
    if x < PADDING {
        0
    } else {
        x - PADDING
    }
}

fn pad_up(x: usize, limit: usize) -> (padded: usize)
    requires
        x + PADDING <= usize::MAX,
    ensures
        padded == padded_up(x as int, limit as int),
{
    if x + PADDING > limit {
        limit
    } else {
        x + PADDING
    }
}

/// The block behind an LED whose stretch of the edge goes from `first` to
/// `second`.
pub fn led_block(edge: Edge, width: usize, height: usize, first: usize, second: usize) -> (block:
    Block)
    requires
        stretch_fits(edge, width as int, height as int, first as int, second as int),
    ensures
        block == block_at(edge, width as int, height as int, first as int, second as int),
{
    match edge {
        Edge::Left => Block {
            x_min: 0,
            y_min: pad_down(height - second),
            x_max: DEPTH,
            y_max: pad_up(height - first, height),
        },
        Edge::Top => Block {
            x_min: pad_down(first),
            y_min: 0,
            x_max: pad_up(second, width),
            y_max: DEPTH,
        },
        Edge::Right => Block {
            x_min: width - DEPTH,
            y_min: pad_down(first),
            x_max: width,
            y_max: pad_up(second, height),
        },
        Edge::Bottom => Block {
            x_min: pad_down(width - second),
            y_min: height - DEPTH,
            x_max: pad_up(width - first, width),
            y_max: height,
        },
    }
}

impl Block {
    /// Whether the block lies inside an image of this size.
    pub open spec fn within(&self, width: int, height: int) -> bool {
        &&& self.x_min <= self.x_max <= width
        &&& self.y_min <= self.y_max <= height
    }

    pub open spec fn columns(&self) -> int {
        self.x_max - self.x_min
    }

    /// The number of pixels.
    pub open spec fn pixels(&self) -> int {
        self.columns() * (self.y_max - self.y_min)
    }

    /// Whether the sums over the block fit their 32 bits.
    pub open spec fn sums_fit(&self) -> bool {
        self.pixels() * 255 <= u32::MAX
    }

    /// Where a pixel of the block stands in an image of this width, counting row by
    /// row.
    pub open spec fn position(&self, width: int, index: int) -> int {
        (index / self.columns() + self.y_min) * width + (index % self.columns() + self.x_min)
    }
}

/// A block never reaches outside the screen.
pub proof fn block_stays_on_screen(edge: Edge, width: int, height: int, first: int, second: int)
    requires
        stretch_fits(edge, width, height, first, second),
        0 <= width <= usize::MAX,
        0 <= height <= usize::MAX,
    ensures
        block_at(edge, width, height, first, second).within(width, height),
{
}

/// The blocks of neighbouring stretches leave no gap: each reaches the other's
/// side of the line between them.
pub proof fn neighbouring_blocks_meet(
    edge: Edge,
    width: int,
    height: int,
    first: int,
    middle: int,
    last: int,
)
    requires
        stretch_fits(edge, width, height, first, middle),
        stretch_fits(edge, width, height, middle, last),
        0 <= width <= usize::MAX,
        0 <= height <= usize::MAX,
    ensures
        ({
            let a = block_at(edge, width, height, first, middle);
            let b = block_at(edge, width, height, middle, last);
            match edge {
                Edge::Left => a.y_min <= b.y_max,
                Edge::Right => b.y_min <= a.y_max,
                Edge::Top => b.x_min <= a.x_max,
                Edge::Bottom => a.x_min <= b.x_max,
            }
        }),
{
}

/// Channel `c` of each pixel of a block.
pub open spec fn block_values(
    image: Seq<Texel>,
    width: int,
    block: Block,
    c: int,
) -> spec_fn(int) -> int {
    |i: int| image[block.position(width, i)][c] as int
}

pub open spec fn ones() -> spec_fn(int) -> int {
    |i: int| 1int
}

/// Whether the texels make an image of this size with channels of at most 255.
pub open spec fn image_fits(image: Seq<Texel>, width: int, height: int) -> bool {
    &&& image.len() == width * height
    &&& forall|i: int, c: int|
        0 <= i < image.len() && 0 <= c < 3 ==> #[trigger] image[i][c] <= 255
}

/// What the thread with number `t` adds up of a block.
pub open spec fn part_of(
    image: Seq<Texel>,
    width: int,
    block: Block,
    t: int,
    sum: PixelSum,
) -> bool {
    let n = block.pixels();
    &&& sum.r == sums::strided(block_values(image, width, block, 0), t, 6, n)
    &&& sum.g == sums::strided(block_values(image, width, block, 1), t, 6, n)
    &&& sum.b == sums::strided(block_values(image, width, block, 2), t, 6, n)
    &&& sum.count == sums::strided(ones(), t, 6, n)
}

proof fn position_in_image(image: Seq<Texel>, width: int, height: int, block: Block, i: int)
    requires
        image_fits(image, width, height),
        block.within(width, height),
        0 <= i < block.pixels(),
    ensures
        0 <= block.position(width, i) < image.len(),
        block.columns() > 0,
        0 <= i / block.columns() < block.y_max - block.y_min,
        0 <= i % block.columns() < block.columns(),
        0 <= (i / block.columns() + block.y_min) * width <= block.position(width, i),
{
    let columns = block.columns();
    let rows = block.y_max - block.y_min;
    assert(columns > 0) by (nonlinear_arith)
        requires
            columns >= 0,
            rows >= 0,
            0 <= i < columns * rows,
    ;
    let row = i / columns;
    let column = i % columns;
    assert(0 <= row < rows && 0 <= column < columns) by (nonlinear_arith)
        requires
            columns > 0,
            0 <= i < columns * rows,
            row == i / columns,
            column == i % columns,
    ;
    let y = row + block.y_min;
    assert((y + 1) * width <= height * width) by (nonlinear_arith)
        requires
            y + 1 <= height,
            width >= 0,
    ;
    assert((y + 1) * width == y * width + width) by (nonlinear_arith);
    assert(0 <= y * width) by (nonlinear_arith)
        requires
            y >= 0,
            width >= 0,
    ;
    assert(height * width == width * height) by (nonlinear_arith);
}

proof fn block_in_image(width: int, height: int, block: Block)
    requires
        block.within(width, height),
    ensures
        0 <= block.pixels() <= width * height,
{
    let columns = block.columns();
    let rows = block.y_max - block.y_min;
    assert(0 <= columns * rows <= width * height) by (nonlinear_arith)
        requires
            0 <= columns <= width,
            0 <= rows <= height,
    ;
}

proof fn strided_step(f: spec_fn(int) -> int, t: int, index: int)
    requires
        0 <= t < 6,
        index >= 0,
        index % 6 == t,
    ensures
        sums::strided(f, t, 6, index + 6) == sums::strided(f, t, 6, index) + f(index),
{
    sums::strided_skips(f, t, 6, index + 1, index + 6);
}

proof fn values_bounded(image: Seq<Texel>, width: int, height: int, block: Block, c: int)
    requires
        image_fits(image, width, height),
        block.within(width, height),
        0 <= c < 3,
    ensures
        forall|i: int|
            0 <= i < block.pixels() ==> 0 <= #[trigger] block_values(image, width, block, c)(i)
                <= 255,
{
    assert forall|i: int| 0 <= i < block.pixels() implies 0 <= #[trigger] block_values(
        image,
        width,
        block,
        c,
    )(i) <= 255 by {
        position_in_image(image, width, height, block, i);
        assert(image[block.position(width, i)][c] <= 255);
    }
}

proof fn strided_room(
    image: Seq<Texel>,
    width: int,
    height: int,
    block: Block,
    c: int,
    t: int,
    n: int,
)
    requires
        image_fits(image, width, height),
        block.within(width, height),
        0 <= c < 3,
        0 <= n <= block.pixels(),
    ensures
        0 <= sums::strided(block_values(image, width, block, c), t, 6, n) <= 255 * n,
        0 <= sums::strided(ones(), t, 6, n) <= n,
{
    values_bounded(image, width, height, block, c);
    sums::strided_bounds(block_values(image, width, block, c), t, 6, n, 255);
    sums::strided_bounds(ones(), t, 6, n, 1);
}

/// What one of an LED's threads adds up: every pixel of the block whose index
/// leaves the thread's number when divided by the stride.
pub fn thread_sum(
    image: &[Texel],
    width: usize,
    height: usize,
    block: Block,
    thread_index: usize,
) -> (sum: PixelSum)
    requires
        image_fits(image@, width as int, height as int),
        block.within(width as int, height as int),
        block.sums_fit(),
        thread_index < THREADS_PER_LED,
    ensures
        part_of(image@, width as int, block, thread_index as int, sum),
{
    let ghost w = width as int;
    let ghost h = height as int;
    let ghost t = thread_index as int;
    let ghost red = block_values(image@, w, block, 0);
    let ghost green = block_values(image@, w, block, 1);
    let ghost blue = block_values(image@, w, block, 2);
    proof {
        block_in_image(w, h, block);
        sums::strided_skips(red, t, 6, 0, t);
        sums::strided_skips(green, t, 6, 0, t);
        sums::strided_skips(blue, t, 6, 0, t);
        sums::strided_skips(ones(), t, 6, 0, t);
    }
    let block_width: usize = block.x_max - block.x_min;
    let block_height: usize = block.y_max - block.y_min;
    assert(block_width * block_height <= u32::MAX);
    let pixels_in_block: usize = block_width * block_height;
    let mut sum = PixelSum { r: 0, g: 0, b: 0, count: 0 };
    let mut index: usize = thread_index;
    while index < pixels_in_block
        invariant
            w == width,
            h == height,
            t == thread_index,
            0 <= t < 3,
            block_width == block.columns(),
            pixels_in_block == block.pixels(),
            pixels_in_block * 255 <= u32::MAX,
            image_fits(image@, w, h),
            block.within(w, h),
            index % 6 == t,
            index >= 6 ==> index - 6 < pixels_in_block,
            red == block_values(image@, w, block, 0),
            green == block_values(image@, w, block, 1),
            blue == block_values(image@, w, block, 2),
            sum.r == sums::strided(red, t, 6, index as int),
            sum.g == sums::strided(green, t, 6, index as int),
            sum.b == sums::strided(blue, t, 6, index as int),
            sum.count == sums::strided(ones(), t, 6, index as int),
        decreases pixels_in_block + 6 - index,
    {
        proof {
            let i = index as int;
            position_in_image(image@, w, h, block, i);
            strided_room(image@, w, h, block, 0, t, i);
            strided_room(image@, w, h, block, 1, t, i);
            strided_room(image@, w, h, block, 2, t, i);
            strided_step(red, t, i);
            strided_step(green, t, i);
            strided_step(blue, t, i);
            strided_step(ones(), t, i);
            assert(image.len() == image@.len());
            values_bounded(image@, w, h, block, 0);
            values_bounded(image@, w, h, block, 1);
            values_bounded(image@, w, h, block, 2);
            assert(red(i) <= 255 && green(i) <= 255 && blue(i) <= 255);
        }
        let x: usize = (index % block_width) + block.x_min;
        let y: usize = (index / block_width) + block.y_min;
        let texel = image[y * width + x];
        sum.r = sum.r + texel[0];
        sum.g = sum.g + texel[1];
        sum.b = sum.b + texel[2];
        sum.count = sum.count + 1;
        index = index + THREAD_STRIDE;
    }
    proof {
        let n = block.pixels();
        let end = index as int;
        sums::strided_skips(red, t, 6, n, end);
        sums::strided_skips(green, t, 6, n, end);
        sums::strided_skips(blue, t, 6, n, end);
        sums::strided_skips(ones(), t, 6, n, end);
    }
    sum
}

/// The part of a sum that an LED's three threads add up together.
pub open spec fn sampled(f: spec_fn(int) -> int, n: int) -> int {
    sums::strided(f, 0, 6, n) + sums::strided(f, 1, 6, n) + sums::strided(f, 2, 6, n)
}

/// What an LED's threads add up is at most what the whole block adds up to.
pub proof fn sampled_within_total(f: spec_fn(int) -> int, n: int)
    requires
        0 <= n,
        forall|i: int| 0 <= i < n ==> 0 <= #[trigger] f(i),
    ensures
        0 <= sampled(f, n) <= sums::total(f, n),
    decreases n,
{
    if n > 0 {
        sampled_within_total(f, n - 1);
        assert(f(n - 1) >= 0);
    }
}

/// The sums of an LED from those of its threads.
pub fn reduce(parts: &[PixelSum; 3]) -> (sum: PixelSum)
    requires
        parts@[0].r + parts@[1].r + parts@[2].r <= u32::MAX,
        parts@[0].g + parts@[1].g + parts@[2].g <= u32::MAX,
        parts@[0].b + parts@[1].b + parts@[2].b <= u32::MAX,
        parts@[0].count + parts@[1].count + parts@[2].count <= u32::MAX,
    ensures
        sum.r == parts@[0].r + parts@[1].r + parts@[2].r,
        sum.g == parts@[0].g + parts@[1].g + parts@[2].g,
        sum.b == parts@[0].b + parts@[1].b + parts@[2].b,
        sum.count == parts@[0].count + parts@[1].count + parts@[2].count,
{
    PixelSum {
        r: parts[0].r + parts[1].r + parts[2].r,
        g: parts[0].g + parts[1].g + parts[2].g,
        b: parts[0].b + parts[1].b + parts[2].b,
        count: parts[0].count + parts[1].count + parts[2].count,
    }
}

/// What is written for one LED.
pub open spec fn sum_of_block(image: Seq<Texel>, width: int, block: Block, sum: PixelSum) -> bool {
    let n = block.pixels();
    &&& sum.r == sampled(block_values(image, width, block, 0), n)
    &&& sum.g == sampled(block_values(image, width, block, 1), n)
    &&& sum.b == sampled(block_values(image, width, block, 2), n)
    &&& sum.count == sampled(ones(), n)
}

fn block_sum(image: &[Texel], width: usize, height: usize, block: Block) -> (sum: PixelSum)
    requires
        image_fits(image@, width as int, height as int),
        block.within(width as int, height as int),
        block.sums_fit(),
    ensures
        sum_of_block(image@, width as int, block, sum),
{
    let parts = [
        thread_sum(image, width, height, block, 0),
        thread_sum(image, width, height, block, 1),
        thread_sum(image, width, height, block, 2),
    ];
    proof {
        let w = width as int;
        let h = height as int;
        let n = block.pixels();
        block_in_image(w, h, block);
        values_bounded(image@, w, h, block, 0);
        values_bounded(image@, w, h, block, 1);
        values_bounded(image@, w, h, block, 2);
        sampled_within_total(block_values(image@, w, block, 0), n);
        sampled_within_total(block_values(image@, w, block, 1), n);
        sampled_within_total(block_values(image@, w, block, 2), n);
        sampled_within_total(ones(), n);
        sums::total_bounds(block_values(image@, w, block, 0), n, 255);
        sums::total_bounds(block_values(image@, w, block, 1), n, 255);
        sums::total_bounds(block_values(image@, w, block, 2), n, 255);
        sums::total_bounds(ones(), n, 1);
    }
    reduce(&parts)
}

/// The widest and the highest screen whose sums fit their 32 bits.
pub const SCREEN_LIMIT: u32 = 1_500_000;

/// The size of an edge and how many LEDs share it.
pub open spec fn edge_share(edge: Edge, params: DispatchParams) -> (nat, nat) {
    match edge {
        Edge::Left | Edge::Right => (params.height as nat, 47),
        Edge::Top | Edge::Bottom => (params.width as nat, 85),
    }
}

/// Where the stretch of an LED starts and ends on its edge.
pub open spec fn stretch_of(edge: Edge, nth: nat, params: DispatchParams) -> (nat, nat) {
    let (size, leds) = edge_share(edge, params);
    (
        stretches::edge_position(size, leds, nth),
        stretches::edge_position(size, leds, nth + 1),
    )
}

/// The block of the LED with this index.
pub open spec fn block_of_led(led_index: int, params: DispatchParams) -> Block {
    let (edge, nth) = led_place(led_index)->Some_0;
    let (first, second) = stretch_of(edge, nth as nat, params);
    block_at(edge, params.width as int, params.height as int, first as int, second as int)
}

/// Whether the screen is large enough for the blocks, and small enough for the sums.
pub open spec fn screen_fits(params: DispatchParams) -> bool {
    &&& DEPTH <= params.width <= SCREEN_LIMIT
    &&& DEPTH <= params.height <= SCREEN_LIMIT
}

/// Every LED has its block on the screen, and the sums over it fit.
pub proof fn every_led_has_a_block(led_index: int, params: DispatchParams)
    requires
        0 <= led_index < BORDER_LEDS,
        screen_fits(params),
    ensures
        ({
            let (edge, nth) = led_place(led_index)->Some_0;
            let (first, second) = stretch_of(edge, nth as nat, params);
            stretch_fits(
                edge,
                params.width as int,
                params.height as int,
                first as int,
                second as int,
            )
        }),
        block_of_led(led_index, params).within(params.width as int, params.height as int),
        block_of_led(led_index, params).sums_fit(),
{
    let (edge, nth) = led_place(led_index)->Some_0;
    let (size, leds) = edge_share(edge, params);
    let (first, second) = stretch_of(edge, nth as nat, params);
    stretches::stretches_follow_each_other(size, leds, nth as nat);
    stretches::stretches_are_even(size, leds, nth as nat);
    block_stays_on_screen(
        edge,
        params.width as int,
        params.height as int,
        first as int,
        second as int,
    );
    let block = block_of_led(led_index, params);
    let columns = block.columns();
    let rows = block.y_max - block.y_min;
    let length = second - first + 20;
    assert((size + 101) / leds <= 31_918) by (nonlinear_arith)
        requires
            size <= 1_500_000,
            leds >= 47,
    ;
    assert(length <= 31_939);
    assert(columns * rows <= 500 * 31_939) by (nonlinear_arith)
        requires
            (columns <= 500 && 0 <= rows <= 31_939) || (rows <= 500 && 0 <= columns <= 31_939),
            0 <= columns,
            0 <= rows,
    ;
}

/// The sums of one LED in the output.
pub open spec fn output_at(output: AverageBuffer, i: int) -> PixelSum {
    PixelSum {
        r: output.sum_r@[i],
        g: output.sum_g@[i],
        b: output.sum_b@[i],
        count: output.pixel_count@[i],
    }
}

/// The block of an LED.
pub fn block_for_led(led_index: usize, params: DispatchParams) -> (block: Option<Block>)
    requires
        screen_fits(params),
    ensures
        match block {
            Some(block) => led_index < BORDER_LEDS && block == block_of_led(
                led_index as int,
                params,
            ),
            None => led_index >= BORDER_LEDS,
        },
{
    let width: usize = params.width as usize;
    let height: usize = params.height as usize;
    match place_of_led(led_index) {
        Some((edge, nth)) => {
            proof {
                every_led_has_a_block(led_index as int, params);
            }
            let (size, leds): (usize, usize) = match edge {
                Edge::Left | Edge::Right => (height, SIDE_LEDS),
                Edge::Top | Edge::Bottom => (width, TOP_LEDS),
            };
            let first: usize = edge_of(size, leds, nth);
            let second: usize = edge_of(size, leds, nth + 1);
            Some(led_block(edge, width, height, first, second))
        },
        None => None,
    }
}

/// Runs the kernel on an image: for every LED the sums over the pixels that its threads
/// take of its block, or zeros if there is nothing to add up.
pub fn dispatch(image: &[Texel], params: DispatchParams) -> (output: AverageBuffer)
    requires
        !params.is_empty() ==> image_fits(image@, params.width as int, params.height as int)
            && screen_fits(params),
    ensures
        params.is_empty() ==> forall|i: int|
            0 <= i < BORDER_LEDS ==> #[trigger] output_at(output, i) == (PixelSum {
                r: 0,
                g: 0,
                b: 0,
                count: 0,
            }),
        !params.is_empty() ==> forall|i: int|
            0 <= i < BORDER_LEDS ==> sum_of_block(
                image@,
                params.width as int,
                block_of_led(i, params),
                #[trigger] output_at(output, i),
            ),
{
    let mut output = AverageBuffer::default();
    if params.width == 0 || params.height == 0 || params.bytes_per_pixel < 3 {
        return output;
    }
    let width: usize = params.width as usize;
    let height: usize = params.height as usize;
    let mut i: usize = 0;
    while i < BORDER_LEDS
        invariant
            i <= BORDER_LEDS,
            width == params.width,
            height == params.height,
            image_fits(image@, width as int, height as int),
            screen_fits(params),
            forall|j: int|
                0 <= j < i ==> sum_of_block(
                    image@,
                    width as int,
                    block_of_led(j, params),
                    #[trigger] output_at(output, j),
                ),
        decreases BORDER_LEDS - i,
    {
        if let Some(block) = block_for_led(i, params) {
            proof {
                every_led_has_a_block(i as int, params);
            }
            let sum = block_sum(image, width, height, block);
            let ghost before = output;
            output.sum_r[i] = sum.r;
            output.sum_g[i] = sum.g;
            output.sum_b[i] = sum.b;
            output.pixel_count[i] = sum.count;
            assert(output_at(output, i as int) == sum);
            assert(forall|j: int|
                0 <= j < i ==> #[trigger] output_at(output, j) == output_at(before, j));
        }
        i += 1;
    }
    output
}

/// LEDs follow each other up the left, along the top, down the right and back along the
/// bottom, with none left out.
pub proof fn leds_follow_each_other(led_index: int)
    requires
        0 <= led_index < 263,
    ensures
        led_place(0) == Some((Edge::Left, 0int)),
        led_place(264) is None,
        led_place(led_index + 1) == (match led_place(led_index) {
            Some((Edge::Left, nth)) => if nth + 1 < 47 {
                Some((Edge::Left, nth + 1))
            } else {
                Some((Edge::Top, 0int))
            },
            Some((Edge::Top, nth)) => if nth + 1 < 85 {
                Some((Edge::Top, nth + 1))
            } else {
                Some((Edge::Right, 0int))
            },
            Some((Edge::Right, nth)) => if nth + 1 < 47 {
                Some((Edge::Right, nth + 1))
            } else {
                Some((Edge::Bottom, 0int))
            },
            Some((Edge::Bottom, nth)) => Some((Edge::Bottom, nth + 1)),
            None => None,
        }),
{
}

/// Each LED has three threads, numbered from zero on.
pub proof fn each_led_has_three_threads(led_index: int, t: int)
    requires
        0 <= led_index,
        0 <= t < 3,
    ensures
        thread_place(3 * led_index + t) == (led_index, t),
{
}

/// A block lies at its edge of the screen and goes 500 pixels deep. Along the edge it
/// holds its whole stretch and reaches beyond it by 10 pixels at most.
pub proof fn block_lies_behind_its_stretch(edge: Edge, width: int, height: int, first: int, second: int)
    requires
        stretch_fits(edge, width, height, first, second),
        0 <= width <= usize::MAX,
        0 <= height <= usize::MAX,
    ensures
        ({
            let block = block_at(edge, width, height, first, second);
            match edge {
                Edge::Left => {
                    &&& block.x_min == 0 && block.x_max == 500
                    &&& height - second - 10 <= block.y_min <= height - second
                    &&& height - first <= block.y_max <= height - first + 10
                },
                Edge::Top => {
                    &&& block.y_min == 0 && block.y_max == 500
                    &&& first - 10 <= block.x_min <= first
                    &&& second <= block.x_max <= second + 10
                },
                Edge::Right => {
                    &&& block.x_min == width - 500 && block.x_max == width
                    &&& first - 10 <= block.y_min <= first
                    &&& second <= block.y_max <= second + 10
                },
                Edge::Bottom => {
                    &&& block.y_min == height - 500 && block.y_max == height
                    &&& width - second - 10 <= block.x_min <= width - second
                    &&& width - first <= block.x_max <= width - first + 10
                },
            }
        }),
{
}

/// Away from the corners a block reaches beyond its stretch by just as many pixels on
/// either side.
pub proof fn blocks_overlap_evenly(edge: Edge, width: int, height: int, first: int, second: int)
    requires
        stretch_fits(edge, width, height, first, second),
        0 <= width <= usize::MAX,
        0 <= height <= usize::MAX,
        10 <= first,
        match edge {
            Edge::Left | Edge::Right => second + 10 <= height,
            Edge::Top | Edge::Bottom => second + 10 <= width,
        },
    ensures
        ({
            let block = block_at(edge, width, height, first, second);
            match edge {
                Edge::Left | Edge::Right => block.y_max - block.y_min == second - first + 20,
                Edge::Top | Edge::Bottom => block.x_max - block.x_min == second - first + 20,
            }
        }),
{
}

/// A block's pixels are counted row by row from its upper left corner.
pub proof fn pixels_are_counted_by_rows(block: Block, width: int, row: int, column: int)
    requires
        0 <= row,
        0 <= column < block.columns(),
    ensures
        block.position(width, row * block.columns() + column) == (block.y_min + row) * width
            + block.x_min + column,
{
    let columns = block.columns();
    let index = row * columns + column;
    assert(index / columns == row && index % columns == column) by (nonlinear_arith)
        requires
            index == row * columns + column,
            0 <= column < columns,
            0 <= row,
    ;
}

/// Of every six pixels an LED's threads add up the first three.
pub proof fn first_half_of_six_is_sampled(f: spec_fn(int) -> int, n: int)
    requires
        0 <= n,
    ensures
        sampled(f, 0) == 0,
        sampled(f, n + 1) == sampled(f, n) + (if n % 6 < 3 {
            f(n)
        } else {
            0
        }),
{
}

proof fn sampled_constant(f: spec_fn(int) -> int, value: int, n: int)
    requires
        0 <= n,
        forall|i: int| 0 <= i < n ==> #[trigger] f(i) == value,
    ensures
        sampled(f, n) == value * sampled(ones(), n),
    decreases n,
{
    if n > 0 {
        sampled_constant(f, value, n - 1);
        assert(f(n - 1) == value);
        first_half_of_six_is_sampled(f, n - 1);
        first_half_of_six_is_sampled(ones(), n - 1);
        let (before, after) = (sampled(ones(), n - 1), sampled(ones(), n));
        assert(value * (before + 1) == value * before + value) by (nonlinear_arith);
    } else {
        first_half_of_six_is_sampled(f, 0);
        first_half_of_six_is_sampled(ones(), 0);
        assert(value * 0 == 0);
    }
}

/// A block of one colour has that colour in its sums, once for each pixel that is added up.
pub proof fn block_of_one_color_sums_up(
    image: Seq<Texel>,
    width: int,
    height: int,
    block: Block,
    sum: PixelSum,
    red: u32,
    green: u32,
    blue: u32,
)
    requires
        image_fits(image, width, height),
        block.within(width, height),
        sum_of_block(image, width, block, sum),
        forall|i: int|
            0 <= i < block.pixels() ==> image[#[trigger] block.position(width, i)][0] == red
                && image[block.position(width, i)][1] == green && image[block.position(
                width,
                i,
            )][2] == blue,
    ensures
        sum.r == red * sum.count,
        sum.g == green * sum.count,
        sum.b == blue * sum.count,
{
    let n = block.pixels();
    block_in_image(width, height, block);
    sampled_constant(block_values(image, width, block, 0), red as int, n);
    sampled_constant(block_values(image, width, block, 1), green as int, n);
    sampled_constant(block_values(image, width, block, 2), blue as int, n);
}

/// The LEDs of an edge share all of it: the first stretch starts where the edge does, and the
/// last one ends within a pixel of its end. The left and the right are as long as the screen
/// is high, the top and the bottom as long as it is wide.
pub proof fn leds_share_their_whole_edge(params: DispatchParams)
    requires
        screen_fits(params),
    ensures
        stretch_of(Edge::Left, 0, params).0 == 0,
        stretch_of(Edge::Top, 0, params).0 == 0,
        stretch_of(Edge::Right, 0, params).0 == 0,
        stretch_of(Edge::Bottom, 0, params).0 == 0,
        params.height - 1 <= stretch_of(Edge::Left, 46, params).1 <= params.height,
        params.width - 1 <= stretch_of(Edge::Top, 84, params).1 <= params.width,
        params.height - 1 <= stretch_of(Edge::Right, 46, params).1 <= params.height,
        params.width - 1 <= stretch_of(Edge::Bottom, 84, params).1 <= params.width,
{
    stretches::stretches_follow_each_other(params.height as nat, 47, 46);
    stretches::stretches_follow_each_other(params.width as nat, 85, 84);
    stretches::stretches_start_at_their_share(params.height as nat, 47, 47);
    stretches::stretches_start_at_their_share(params.width as nat, 85, 85);
}

} // verus!
