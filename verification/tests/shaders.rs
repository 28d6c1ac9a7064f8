use hal1210::shadercomm::{DispatchParams, BORDER_LEDS, DEPTH, PADDING, SIDE_LEDS, TOP_LEDS};
use hal1210::shaders::border_colors;
use hal1210::shaders::color::invocation_color;
use hal1210::shaders::led_border::{
    block_for_led, dispatch, led_block, place_of_led, place_of_thread, Block, Edge, Texel,
};
use hal1210::shaders::stretches::edge_of;

fn params(width: u32, height: u32) -> DispatchParams {
    DispatchParams { width, height, stride: 4 * width, bytes_per_pixel: 4 }
}

/// The block in floating-point arithmetic.
fn float_block(led: usize, width: usize, height: usize) -> Block {
    let block_height = height as f32 / SIDE_LEDS as f32;
    let block_width = width as f32 / TOP_LEDS as f32;
    if led < SIDE_LEDS {
        let first = (block_height * led as f32) as usize;
        let second = (block_height * (led + 1) as f32) as usize;
        Block {
            x_min: 0,
            y_min: (height - second).saturating_sub(PADDING),
            x_max: DEPTH,
            y_max: (height - first + PADDING).min(height),
        }
    } else if led < SIDE_LEDS + TOP_LEDS {
        let first = (block_width * (led - SIDE_LEDS) as f32) as usize;
        let second = (block_width * (led - SIDE_LEDS + 1) as f32) as usize;
        Block {
            x_min: first.saturating_sub(PADDING),
            y_min: 0,
            x_max: (second + PADDING).min(width),
            y_max: DEPTH,
        }
    } else if led < 2 * SIDE_LEDS + TOP_LEDS {
        let first = (block_height * (led - SIDE_LEDS - TOP_LEDS) as f32) as usize;
        let second = (block_height * (led - SIDE_LEDS - TOP_LEDS + 1) as f32) as usize;
        Block {
            x_min: width - DEPTH,
            y_min: first.saturating_sub(PADDING),
            x_max: width,
            y_max: (second + PADDING).min(height),
        }
    } else {
        let first = (block_width * (led - 2 * SIDE_LEDS - TOP_LEDS) as f32) as usize;
        let second = (block_width * (led - 2 * SIDE_LEDS - TOP_LEDS + 1) as f32) as usize;
        Block {
            x_min: (width - second).saturating_sub(PADDING),
            y_min: height - DEPTH,
            x_max: (width - first + PADDING).min(width),
            y_max: height,
        }
    }
}

#[test]
fn blocks_match_floating_point() {
    for (width, height) in [(500, 500), (640, 513), (1920, 1080), (2560, 1440), (3840, 2160)] {
        for led in 0..BORDER_LEDS {
            assert_eq!(
                block_for_led(led, params(width, height)),
                Some(float_block(led, width as usize, height as usize))
            );
        }
        assert_eq!(block_for_led(BORDER_LEDS, params(width, height)), None);
    }
}

#[test]
fn edges_match_floating_point() {
    for size in (1..20_000).chain([65_535, 131_071, 999_999, 1_500_000]) {
        for (leds, nth) in [(47, 0), (47, 1), (47, 23), (47, 46), (47, 47), (85, 33), (85, 85)] {
            let block = size as f32 / leds as f32;
            assert_eq!(edge_of(size, leds, nth), (block * nth as f32) as usize);
        }
    }
}

#[test]
fn leds_run_around_the_screen() {
    assert_eq!(place_of_led(0), Some((Edge::Left, 0)));
    assert_eq!(place_of_led(46), Some((Edge::Left, 46)));
    assert_eq!(place_of_led(47), Some((Edge::Top, 0)));
    assert_eq!(place_of_led(132), Some((Edge::Right, 0)));
    assert_eq!(place_of_led(179), Some((Edge::Bottom, 0)));
    assert_eq!(place_of_led(263), Some((Edge::Bottom, 84)));
    assert_eq!(place_of_led(264), None);
    assert_eq!(place_of_thread(0), (0, 0));
    assert_eq!(place_of_thread(1023), (341, 0));
    assert_eq!(place_of_thread(5), (1, 2));
}

#[test]
fn blocks_are_padded_within_the_screen() {
    assert_eq!(
        led_block(Edge::Left, 600, 500, 0, 10),
        Block { x_min: 0, y_min: 480, x_max: 500, y_max: 500 }
    );
    assert_eq!(
        led_block(Edge::Top, 600, 500, 100, 107),
        Block { x_min: 90, y_min: 0, x_max: 117, y_max: 500 }
    );
    assert_eq!(
        led_block(Edge::Right, 600, 500, 5, 10),
        Block { x_min: 100, y_min: 0, x_max: 600, y_max: 20 }
    );
    assert_eq!(
        led_block(Edge::Bottom, 600, 500, 0, 7),
        Block { x_min: 583, y_min: 0, x_max: 600, y_max: 500 }
    );
}

#[test]
fn sums_match_the_threads_of_the_kernel() {
    let (width, height) = (520usize, 505usize);
    let image: Vec<Texel> = (0..width * height)
        .map(|i| [(i % 256) as u32, (i / 7 % 256) as u32, (i * i % 251) as u32])
        .collect();
    let output = dispatch(&image, params(width as u32, height as u32));
    for led in 0..BORDER_LEDS {
        let block = float_block(led, width, height);
        let columns = block.x_max - block.x_min;
        let pixels = columns * (block.y_max - block.y_min);
        let (mut sum, mut count) = ([0u32; 3], 0u32);
        for thread in 0..3 {
            let mut index = thread;
            while index < pixels {
                let x = index % columns + block.x_min;
                let y = index / columns + block.y_min;
                for channel in 0..3 {
                    sum[channel] += image[y * width + x][channel];
                }
                count += 1;
                index += 6;
            }
        }
        assert_eq!(
            [output.sum_r[led], output.sum_g[led], output.sum_b[led], output.pixel_count[led]],
            [sum[0], sum[1], sum[2], count]
        );
    }
}

#[test]
fn no_screen_gives_no_sums() {
    let output = dispatch(&[], params(0, 700));
    assert!(output.pixel_count.iter().all(|count| *count == 0));
    let flat = DispatchParams { width: 700, height: 700, stride: 700, bytes_per_pixel: 2 };
    let output = dispatch(&[], flat);
    assert!(output.sum_r.iter().all(|sum| *sum == 0));
}

#[test]
fn whole_screen_is_added_up() {
    let (width, height, stride) = (37usize, 61usize, 160usize);
    let mut input = vec![0xee; stride * height];
    let mut sums = [0i64; 3];
    for y in 0..height {
        for x in 0..width {
            for channel in 0..3 {
                let value = (x * 5 + y * 3 + channel * 11) % 256;
                input[y * stride + x * 4 + channel] = value as u8;
                sums[channel] += value as i64;
            }
        }
    }
    let shape = DispatchParams {
        width: width as u32,
        height: height as u32,
        stride: stride as u32,
        bytes_per_pixel: 4,
    };
    let output = border_colors::dispatch(&input, shape);
    assert_eq!([output.sum_b, output.sum_g, output.sum_r], sums);
    assert_eq!(output.pixel_count, (width * height) as i64);
    assert_eq!(output._padding, 0);
    let part = border_colors::thread_sums(&input, shape, 1023);
    assert_eq!(part.count, 2);
    let none = border_colors::dispatch(&[], DispatchParams { bytes_per_pixel: 2, ..shape });
    assert_eq!(none.pixel_count, 0);
}

#[test]
fn colour_depends_on_the_invocation() {
    assert_eq!(invocation_color(1, 2, 3), [1, 2, 3]);
    assert_eq!(invocation_color(256, 511, 0xffff_fffe), [0, 255, 254]);
}
