use hal1210::average::{average_rounded, average_truncated};
use hal1210::gpu::shader::border_colors::{Output, ReturnBuffer};
use hal1210::gpu::shader::ShaderResult;
use hal1210::gpu::ComputeOutput;
use hal1210::shadercomm::{AverageBuffer, BORDER_LEDS};

fn truncated(sum: u32, count: u32) -> u8 {
    (sum as f32 / count as f32) as u8
}

fn rounded(sum: i64, count: i64) -> u8 {
    (sum as f32 / count as f32).clamp(0.0, 255.0).round() as u8
}

fn next(seed: &mut u64) -> u64 {
    *seed = seed.wrapping_mul(6364136223846793005).wrapping_add(1442695040888963407);
    *seed >> 11
}

#[test]
fn averages_agree_with_floating_point() {
    let mut seed = 7;
    for _ in 0..20_000 {
        let count = (next(&mut seed) % 4_000_000 + 1) as u32;
        let sum = (next(&mut seed) % (count as u64 * 300).min(u32::MAX as u64)) as u32;
        assert_eq!(average_truncated(sum, count), truncated(sum, count), "{sum} / {count}");
        let wide_count = next(&mut seed) % (1 << 40) + 1;
        let wide_sum = next(&mut seed) % (wide_count * 260);
        assert_eq!(
            average_rounded(wide_sum, wide_count),
            rounded(wide_sum as i64, wide_count as i64),
            "{wide_sum} / {wide_count}"
        );
    }
}

#[test]
fn averages_at_the_edges() {
    assert_eq!(average_truncated(0, 1), 0);
    assert_eq!(average_truncated(u32::MAX, 1), 255);
    assert_eq!(average_truncated(u32::MAX, u32::MAX), 1);
    assert_eq!(average_truncated(299, 100), 2);
    assert_eq!(average_rounded(299, 100), 3);
    assert_eq!(average_rounded(5, 2), 3);
    assert_eq!(average_rounded(u64::MAX, 1), 255);
    assert_eq!(average_rounded(1, u64::MAX), 0);
    // The quotient is just below 128, but single precision cannot tell.
    assert_eq!(average_truncated(2_147_483_647, 16_777_216), 128);
    assert_eq!(average_truncated(2_147_483_647, 16_777_216), truncated(2_147_483_647, 16_777_216));
}

#[test]
fn uniform_pixels_keep_their_colour() {
    for value in [0u32, 1, 17, 128, 254, 255] {
        for count in [1u32, 2, 3, 640, 65_000] {
            assert_eq!(average_truncated(value * count, count) as u32, value);
            assert_eq!(average_rounded((value * count) as u64, count as u64) as u32, value);
        }
    }
}

#[test]
fn border_buffer_averages_every_led() {
    let mut buffer = AverageBuffer::default();
    assert_eq!(buffer.average_rgb_u8().unwrap(), [0; 792]);
    buffer.sum_r[0] = 1000;
    buffer.sum_g[0] = 505;
    buffer.sum_b[0] = 9;
    buffer.pixel_count[0] = 10;
    buffer.sum_b[BORDER_LEDS - 1] = 255;
    buffer.pixel_count[BORDER_LEDS - 1] = 1;
    let colors = buffer.average_rgb_u8().unwrap();
    assert_eq!(&colors[..4], &[100, 50, 0, 0]);
    assert_eq!(&colors[789..], &[0, 0, 255]);
}

#[test]
fn sums_give_a_rounded_average() {
    let output = Output { sum_r: 255, sum_g: 128, sum_b: -5, pixel_count: 2 };
    assert_eq!(output.average_rgb_u8(), Some([128, 64, 0]));
    assert_eq!(Output::default().average_rgb_u8(), None);
    let negative = Output { sum_r: 1, sum_g: 1, sum_b: 1, pixel_count: -1 };
    assert_eq!(negative.average_rgb_u8(), None);
    let over = Output { sum_r: 10_000, sum_g: 0, sum_b: 300, pixel_count: 1 };
    assert_eq!(over.average_rgb_u8(), Some([255, 0, 255]));
}

#[test]
fn results_come_out_of_the_buffer() {
    let buffer = ReturnBuffer { sum_r: 10, sum_g: 20, sum_b: 30, pixel_count: 10, padding: 99 };
    assert_eq!(Output::from(buffer).average_rgb_u8(), Some([1, 2, 3]));
    assert_eq!(ComputeOutput::from(buffer).average_rgb_u8(), Some([1, 2, 3]));
    assert_eq!(ComputeOutput::default().average_rgb_u8(), None);
    let result = ShaderResult::from(Output::from(buffer));
    assert_eq!(result.average_rgb_u8(), Some([1, 2, 3]));
    assert_eq!(ShaderResult::default().average_rgb_u8(), None);
}
