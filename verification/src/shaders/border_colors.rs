//! Adds up the channels of a whole image.

use vstd::prelude::*;

use crate::shadercomm::DispatchParams;
use crate::shaders::sums;

verus! {

pub const WORKGROUP_SIZE: usize = 1024;

#[derive(Debug, Clone, Copy, PartialEq, Eq, Structural)]
pub struct AverageBuffer {
    pub sum_r: i64,
    pub sum_g: i64,
    pub sum_b: i64,
    pub pixel_count: i64,
    pub _padding: i64,
}

/// What one thread adds up.
#[derive(Debug, Clone, Copy, PartialEq, Eq, Structural)]
pub struct ThreadSums {
    pub sum_r: i64,
    pub sum_g: i64,
    pub sum_b: i64,
    pub count: i64,
}

/// What the threads of the workgroup share.
#[derive(Debug, Clone, Copy)]
pub struct WorkgroupSums {
    pub sum_r: [i64; WORKGROUP_SIZE],
    pub sum_g: [i64; WORKGROUP_SIZE],
    pub sum_b: [i64; WORKGROUP_SIZE],
    pub count: [i64; WORKGROUP_SIZE],
}

impl DispatchParams {
    /// The number of pixels.
    pub open spec fn pixels(&self) -> int {
        self.width * self.height
    }

    /// Where the pixel with this index starts, counting row by row.
    pub open spec fn offset(&self, index: int) -> int {
        (index / self.width as int) * self.stride + (index % self.width as int)
            * self.bytes_per_pixel
    }

    /// Whether there is anything to add up.
    pub open spec fn is_empty(&self) -> bool {
        self.width == 0 || self.height == 0 || self.bytes_per_pixel < 3
    }
}

/// Whether every pixel lies inside the input and the sums have room.
pub open spec fn image_fits(input: Seq<u8>, params: DispatchParams) -> bool {
    &&& params.pixels() * 255 <= i64::MAX
    &&& params.pixels() + WORKGROUP_SIZE <= usize::MAX
    &&& forall|i: int|
        0 <= i < params.pixels() ==> 0 <= #[trigger] params.offset(i) && params.offset(i) + 2
            < input.len()
}

/// The byte at `channel` of each pixel: blue, green and red.
pub open spec fn channel_values(
    input: Seq<u8>,
    params: DispatchParams,
    channel: int,
) -> spec_fn(int) -> int {
    |i: int| input[params.offset(i) + channel] as int
}

/// One for each pixel.
pub open spec fn ones() -> spec_fn(int) -> int {
    |i: int| 1int
}

/// The part of the image's sums that thread `t` adds up.
pub open spec fn thread_sums_of(input: Seq<u8>, params: DispatchParams, t: int, sums: ThreadSums) -> bool {
    &&& sums.sum_r == sums::strided(channel_values(input, params, 2), t, 1024, params.pixels())
    &&& sums.sum_g == sums::strided(channel_values(input, params, 1), t, 1024, params.pixels())
    &&& sums.sum_b == sums::strided(channel_values(input, params, 0), t, 1024, params.pixels())
    &&& sums.count == sums::strided(ones(), t, 1024, params.pixels())
}

proof fn strided_step(f: spec_fn(int) -> int, t: int, index: int)
    requires
        0 <= t < 1024,
        index >= 0,
        index % 1024 == t,
    ensures
        sums::strided(f, t, 1024, index + 1024) == sums::strided(f, t, 1024, index) + f(index),
{
    sums::strided_skips(f, t, 1024, index + 1, index + 1024);
}

proof fn strided_room(input: Seq<u8>, params: DispatchParams, channel: int, t: int, n: int)
    requires
        image_fits(input, params),
        0 <= channel < 3,
        0 <= n <= params.pixels(),
    ensures
        0 <= sums::strided(channel_values(input, params, channel), t, 1024, n) <= 255 * n,
        0 <= sums::strided(ones(), t, 1024, n) <= n,
{
    let f = channel_values(input, params, channel);
    assert forall|i: int| 0 <= i < n implies 0 <= #[trigger] f(i) <= 255 by {
        assert(params.offset(i) >= 0);
    }
    sums::strided_bounds(f, t, 1024, n, 255);
    sums::strided_bounds(ones(), t, 1024, n, 1);
}

/// What the thread with `local_index` adds up: every pixel whose index leaves
/// `local_index` when divided by the size of the workgroup.
pub fn thread_sums(input: &[u8], params: DispatchParams, local_index: u32) -> (sums: ThreadSums)
    requires
        !params.is_empty(),
        image_fits(input@, params),
        local_index < WORKGROUP_SIZE,
    ensures
        thread_sums_of(input@, params, local_index as int, sums),
{
    let width: usize = params.width as usize;
    let stride: usize = params.stride as usize;
    let bpp: usize = params.bytes_per_pixel as usize;
    assert(params.width * params.height <= usize::MAX);
    let total_pixels: usize = width * params.height as usize;
    let ghost t = local_index as int;
    let ghost red = channel_values(input@, params, 2);
    let ghost green = channel_values(input@, params, 1);
    let ghost blue = channel_values(input@, params, 0);
    let mut sums = ThreadSums { sum_r: 0, sum_g: 0, sum_b: 0, count: 0 };
    let mut index: usize = local_index as usize;
    proof {
        sums::strided_skips(red, t, 1024, 0, t);
        sums::strided_skips(green, t, 1024, 0, t);
        sums::strided_skips(blue, t, 1024, 0, t);
        sums::strided_skips(ones(), t, 1024, 0, t);
    }
    while index < total_pixels
        invariant
            total_pixels == params.pixels(),
            width == params.width,
            width > 0,
            stride == params.stride,
            bpp == params.bytes_per_pixel,
            t == local_index,
            0 <= t < 1024,
            index % 1024 == t,
            index < total_pixels + 1024,
            index >= 1024 ==> index - 1024 < total_pixels,
            image_fits(input@, params),
            red == channel_values(input@, params, 2),
            green == channel_values(input@, params, 1),
            blue == channel_values(input@, params, 0),
            sums.sum_r == sums::strided(red, t, 1024, index as int),
            sums.sum_g == sums::strided(green, t, 1024, index as int),
            sums.sum_b == sums::strided(blue, t, 1024, index as int),
            sums.count == sums::strided(ones(), t, 1024, index as int),
        decreases total_pixels + 1024 - index,
    {
        let y: usize = index / width;
        let x: usize = index % width;
        proof {
            let i = index as int;
            assert(params.offset(i) == y * stride + x * bpp);
            assert(0 <= y * stride && 0 <= x * bpp) by (nonlinear_arith)
                requires
                    y >= 0,
                    stride >= 0,
                    x >= 0,
                    bpp >= 0,
            ;
            assert(input.len() == input@.len());
            strided_room(input@, params, 0, t, i);
            strided_room(input@, params, 1, t, i);
            strided_room(input@, params, 2, t, i);
            strided_step(red, t, i);
            strided_step(green, t, i);
            strided_step(blue, t, i);
            strided_step(ones(), t, i);
        }
        let offset: usize = y * stride + x * bpp;
        sums.sum_r = sums.sum_r + input[offset + 2] as i64;
        sums.sum_g = sums.sum_g + input[offset + 1] as i64;
        sums.sum_b = sums.sum_b + input[offset] as i64;
        sums.count = sums.count + 1;
        index = index + WORKGROUP_SIZE;
    }
    proof {
        let n = params.pixels();
        if index >= 1024 {
            sums::strided_skips(red, t, 1024, n, index as int);
            sums::strided_skips(green, t, 1024, n, index as int);
            sums::strided_skips(blue, t, 1024, n, index as int);
            sums::strided_skips(ones(), t, 1024, n, index as int);
        } else {
            sums::strided_skips(red, t, 1024, n, t);
            sums::strided_skips(green, t, 1024, n, t);
            sums::strided_skips(blue, t, 1024, n, t);
            sums::strided_skips(ones(), t, 1024, n, t);
        }
    }
    sums
}

/// The values of a shared array as summands.
pub open spec fn values(shared: Seq<i64>) -> spec_fn(int) -> int {
    |i: int| shared[i] as int
}

/// Adds up one shared array.
fn accumulate(shared: &[i64; WORKGROUP_SIZE]) -> (sum: i64)
    requires
        forall|i: int| 0 <= i < WORKGROUP_SIZE ==> 0 <= #[trigger] shared@[i],
        sums::total(values(shared@), 1024) <= i64::MAX,
    ensures
        sum == sums::total(values(shared@), 1024),
{
    let mut sum: i64 = 0;
    let mut i: usize = 0;
    while i < WORKGROUP_SIZE
        invariant
            i <= WORKGROUP_SIZE,
            forall|j: int| 0 <= j < WORKGROUP_SIZE ==> 0 <= #[trigger] shared@[j],
            sums::total(values(shared@), 1024) <= i64::MAX,
            sum == sums::total(values(shared@), i as int),
            0 <= sum,
        decreases WORKGROUP_SIZE - i,
    {
        proof {
            sums::total_grows(values(shared@), i + 1, 1024);
        }
        sum = sum + shared[i];
        i += 1;
    }
    sum
}

/// What the first thread writes once every thread has stored its sums.
pub fn reduce(shared: &WorkgroupSums) -> (output: AverageBuffer)
    requires
        forall|i: int|
            0 <= i < WORKGROUP_SIZE ==> 0 <= #[trigger] shared.sum_r@[i],
        forall|i: int|
            0 <= i < WORKGROUP_SIZE ==> 0 <= #[trigger] shared.sum_g@[i],
        forall|i: int|
            0 <= i < WORKGROUP_SIZE ==> 0 <= #[trigger] shared.sum_b@[i],
        forall|i: int|
            0 <= i < WORKGROUP_SIZE ==> 0 <= #[trigger] shared.count@[i],
        sums::total(values(shared.sum_r@), 1024) <= i64::MAX,
        sums::total(values(shared.sum_g@), 1024) <= i64::MAX,
        sums::total(values(shared.sum_b@), 1024) <= i64::MAX,
        sums::total(values(shared.count@), 1024) <= i64::MAX,
    ensures
        output.sum_r == sums::total(values(shared.sum_r@), 1024),
        output.sum_g == sums::total(values(shared.sum_g@), 1024),
        output.sum_b == sums::total(values(shared.sum_b@), 1024),
        output.pixel_count == sums::total(values(shared.count@), 1024),
        output._padding == 0,
{
    AverageBuffer {
        sum_r: accumulate(&shared.sum_r),
        sum_g: accumulate(&shared.sum_g),
        sum_b: accumulate(&shared.sum_b),
        pixel_count: accumulate(&shared.count),
        _padding: 0,
    }
}

proof fn parts_make_total(f: spec_fn(int) -> int, shared: Seq<i64>, n: int)
    requires
        n >= 0,
        shared.len() == 1024,
        forall|t: int|
            0 <= t < 1024 ==> #[trigger] shared[t] == sums::strided(f, t, 1024, n),
    ensures
        sums::total(values(shared), 1024) == sums::total(f, n),
{
    sums::threads_cover(f, 1024, n);
    sums::total_of_equal(values(shared), sums::thread_part(f, 1024, n), 1024);
}

/// Whether these are the sums over an image.
pub open spec fn sums_up(input: Seq<u8>, params: DispatchParams, output: AverageBuffer) -> bool {
    if params.is_empty() {
        output == (AverageBuffer { sum_r: 0, sum_g: 0, sum_b: 0, pixel_count: 0, _padding: 0 })
    } else {
        &&& output.sum_r == sums::total(channel_values(input, params, 2), params.pixels())
        &&& output.sum_g == sums::total(channel_values(input, params, 1), params.pixels())
        &&& output.sum_b == sums::total(channel_values(input, params, 0), params.pixels())
        &&& output.pixel_count == params.pixels()
        &&& output._padding == 0
    }
}

/// Runs the kernel on an image: the sums of every channel over all its pixels, or
/// zeros if there is nothing to add up.
pub fn dispatch(input: &[u8], params: DispatchParams) -> (output: AverageBuffer)
    requires
        !params.is_empty() ==> image_fits(input@, params),
    ensures
        sums_up(input@, params, output),
{
    if params.width == 0 || params.height == 0 || params.bytes_per_pixel < 3 {
        return AverageBuffer { sum_r: 0, sum_g: 0, sum_b: 0, pixel_count: 0, _padding: 0 };
    }
    let mut shared = WorkgroupSums {
        sum_r: [0; WORKGROUP_SIZE],
        sum_g: [0; WORKGROUP_SIZE],
        sum_b: [0; WORKGROUP_SIZE],
        count: [0; WORKGROUP_SIZE],
    };
    let ghost n = params.pixels();
    proof {
        assert(n >= 0) by (nonlinear_arith)
            requires
                n == params.width * params.height,
        ;
    }
    let ghost red = channel_values(input@, params, 2);
    let ghost green = channel_values(input@, params, 1);
    let ghost blue = channel_values(input@, params, 0);
    let mut t: u32 = 0;
    while t < 1024
        invariant
            t <= 1024,
            n == params.pixels(),
            n >= 0,
            !params.is_empty(),
            image_fits(input@, params),
            red == channel_values(input@, params, 2),
            green == channel_values(input@, params, 1),
            blue == channel_values(input@, params, 0),
            forall|i: int|
                0 <= i < t ==> #[trigger] shared.sum_r@[i] == sums::strided(red, i, 1024, n) && 0
                    <= shared.sum_r@[i],
            forall|i: int|
                0 <= i < t ==> #[trigger] shared.sum_g@[i] == sums::strided(green, i, 1024, n) && 0
                    <= shared.sum_g@[i],
            forall|i: int|
                0 <= i < t ==> #[trigger] shared.sum_b@[i] == sums::strided(blue, i, 1024, n) && 0
                    <= shared.sum_b@[i],
            forall|i: int|
                0 <= i < t ==> #[trigger] shared.count@[i] == sums::strided(ones(), i, 1024, n) && 0
                    <= shared.count@[i],
        decreases 1024 - t,
    {
        let sums = thread_sums(input, params, t);
        proof {
            strided_room(input@, params, 0, t as int, n);
            strided_room(input@, params, 1, t as int, n);
            strided_room(input@, params, 2, t as int, n);
        }
        shared.sum_r[t as usize] = sums.sum_r;
        shared.sum_g[t as usize] = sums.sum_g;
        shared.sum_b[t as usize] = sums.sum_b;
        shared.count[t as usize] = sums.count;
        t += 1;
    }
    proof {
        parts_make_total(red, shared.sum_r@, n);
        parts_make_total(green, shared.sum_g@, n);
        parts_make_total(blue, shared.sum_b@, n);
        parts_make_total(ones(), shared.count@, n);
        total_room(input@, params, 0);
        total_room(input@, params, 1);
        total_room(input@, params, 2);
    }
    reduce(&shared)
}

proof fn total_room(input: Seq<u8>, params: DispatchParams, channel: int)
    requires
        image_fits(input, params),
        0 <= channel < 3,
        0 <= params.pixels(),
    ensures
        0 <= sums::total(channel_values(input, params, channel), params.pixels()) <= 255
            * params.pixels(),
        sums::total(ones(), params.pixels()) == params.pixels(),
{
    let f = channel_values(input, params, channel);
    assert forall|i: int| 0 <= i < params.pixels() implies 0 <= #[trigger] f(i) <= 255 by {
        assert(params.offset(i) >= 0);
    }
    sums::total_bounds(f, params.pixels(), 255);
    total_of_ones(params.pixels());
}

proof fn total_of_ones(n: int)
    requires
        0 <= n,
    ensures
        sums::total(ones(), n) == n,
    decreases n,
{
    if n > 0 {
        total_of_ones(n - 1);
    }
}

proof fn total_of_constant(f: spec_fn(int) -> int, value: int, n: int)
    requires
        0 <= n,
        forall|i: int| 0 <= i < n ==> #[trigger] f(i) == value,
    ensures
        sums::total(f, n) == value * n,
    decreases n,
{
    if n > 0 {
        total_of_constant(f, value, n - 1);
        assert(f(n - 1) == value);
        assert(value * n == value * (n - 1) + value) by (nonlinear_arith);
    } else {
        assert(value * n == 0) by (nonlinear_arith)
            requires
                n == 0,
        ;
    }
}

/// The pixel in column `x` of row `y` lies behind `y` whole rows and `x` pixels.
pub proof fn pixels_lie_in_rows(params: DispatchParams, x: int, y: int)
    requires
        0 <= x < params.width,
        0 <= y < params.height,
    ensures
        0 <= y * params.width + x < params.pixels(),
        params.offset(y * params.width + x) == y * params.stride + x * params.bytes_per_pixel,
{
    let (width, height) = (params.width as int, params.height as int);
    let index = y * width + x;
    assert(index / width == y && index % width == x && 0 <= index < width * height)
        by (nonlinear_arith)
        requires
            index == y * width + x,
            0 <= x < width,
            0 <= y < height,
    ;
}

/// A screen of one colour, whose pixels hold blue, green and red in this order, has that
/// colour in its sums, once for each pixel.
pub proof fn screen_of_one_color_sums_up(
    input: Seq<u8>,
    params: DispatchParams,
    output: AverageBuffer,
    red: u8,
    green: u8,
    blue: u8,
)
    requires
        sums_up(input, params, output),
        params.bytes_per_pixel >= 3,
        forall|i: int|
            0 <= i < params.pixels() ==> input[#[trigger] params.offset(i)] == blue
                && input[params.offset(i) + 1] == green && input[params.offset(i) + 2] == red,
    ensures
        output.pixel_count == params.width * params.height,
        output.sum_r == red * output.pixel_count,
        output.sum_g == green * output.pixel_count,
        output.sum_b == blue * output.pixel_count,
{
    let n = params.pixels();
    assert(n >= 0) by (nonlinear_arith)
        requires
            n == params.width * params.height,
    ;
    if params.is_empty() {
        assert(n == 0) by (nonlinear_arith)
            requires
                n == params.width * params.height,
                params.width == 0 || params.height == 0,
        ;
        assert(red * 0 == 0 && green * 0 == 0 && blue * 0 == 0);
    } else {
        total_of_constant(channel_values(input, params, 2), red as int, n);
        total_of_constant(channel_values(input, params, 1), green as int, n);
        total_of_constant(channel_values(input, params, 0), blue as int, n);
    }
}

} // verus!
