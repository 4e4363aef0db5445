use asciivid::ramp::{ramp_index, Ramp, STANDARD_GLYPHS};
use asciivid::raster::{asciify, render_text, DecodedImage, GRID_HEIGHT, GRID_WIDTH};

fn solid(width: u32, height: u32, value: u8) -> DecodedImage {
    let data = vec![value; (3 * width * height) as usize];
    DecodedImage::from_rgb8(width, height, data).unwrap()
}

fn gradient(width: u32, height: u32) -> DecodedImage {
    let mut data = Vec::new();
    for y in 0..height {
        for x in 0..width {
            data.push(((x * 255) / width.max(1)) as u8);
            data.push(((y * 255) / height.max(1)) as u8);
            data.push(((x + y) % 256) as u8);
        }
    }
    DecodedImage::from_rgb8(width, height, data).unwrap()
}

fn assert_grid_shape(text: &str, ramp: &str) {
    let chars: Vec<char> = text.chars().collect();
    let w = GRID_WIDTH as usize;
    let h = GRID_HEIGHT as usize;
    assert_eq!(chars.len(), h * (w + 1));
    for y in 0..h {
        for x in 0..w {
            assert!(ramp.contains(chars[y * (w + 1) + x]));
        }
        assert_eq!(chars[y * (w + 1) + w], '\n');
    }
}

#[test]
fn ramp_index_bounds_for_all_channel_sums() {
    for len in 1..100usize {
        for sum in 0..=765u64 {
            assert!(ramp_index(sum, 765, len) < len);
        }
        assert_eq!(ramp_index(0, 765, len), 0);
        assert_eq!(ramp_index(765, 765, len), len - 1);
    }
}

#[test]
fn ramp_index_floor_of_brightness_times_length() {
    assert_eq!(ramp_index(1, 2, 3), 1);
    assert_eq!(ramp_index(1, 1, 3), 2);
    assert_eq!(ramp_index(0, 1, 3), 0);
    assert_eq!(ramp_index(2, 3, 3), 2);
    assert_eq!(ramp_index(1, 3, 3), 1);
    assert_eq!(ramp_index(382, 765, 92), 45);
    assert_eq!(ramp_index(764, 765, 92), 91);
    assert_eq!(ramp_index(5, 4, 10), 9);
    assert_eq!(ramp_index(u64::MAX, u64::MAX, usize::MAX), usize::MAX - 1);
}

#[test]
fn three_glyph_ramp_scenario() {
    let ramp = Ramp::from_text(" .#").unwrap();
    assert_eq!(ramp.len(), 3);
    assert_eq!(ramp.glyph_for(1, 2), '.');
    assert_eq!(ramp.glyph_for(1, 1), '#');
    assert_eq!(ramp.glyph_for(0, 1), ' ');
}

#[test]
fn ramps_reject_empty_glyph_sets() {
    assert!(Ramp::from_text("").is_none());
    assert!(Ramp::new(Vec::new()).is_none());
    let ramp = Ramp::new(vec!['a', 'b']).unwrap();
    assert_eq!(ramp.glyph(0), 'a');
    assert_eq!(ramp.glyph(1), 'b');
}

#[test]
fn standard_ramp_has_ninety_two_glyphs() {
    let ramp = Ramp::standard();
    assert_eq!(ramp.len(), 92);
    assert_eq!(ramp.glyph(0), ' ');
    assert_eq!(ramp.glyph(91), '@');
    assert_eq!(STANDARD_GLYPHS.chars().count(), 92);
}

#[test]
fn decoded_image_checks_its_size() {
    assert!(DecodedImage::from_rgb8(0, 1, Vec::new()).is_none());
    assert!(DecodedImage::from_rgb8(1, 0, Vec::new()).is_none());
    assert!(DecodedImage::from_rgb8(2, 1, vec![0; 5]).is_none());
    assert!(DecodedImage::from_rgb8(2, 1, vec![0; 7]).is_none());
    let img = DecodedImage::from_rgb8(2, 1, vec![0; 6]).unwrap();
    assert_eq!((img.width, img.height, img.data.len()), (2, 1, 6));
}

#[test]
fn render_text_draws_each_pixel_and_ends_rows() {
    let ramp = Ramp::from_text(" .#").unwrap();
    let data = vec![0, 0, 0, 255, 255, 255, 128, 127, 128, 50, 50, 50];
    let img = DecodedImage::from_rgb8(2, 2, data).unwrap();
    assert_eq!(render_text(&img, &ramp), " #\n. \n");
}

#[test]
fn render_text_of_a_single_pixel() {
    let ramp = Ramp::standard();
    let img = solid(1, 1, 255);
    assert_eq!(render_text(&img, &ramp), "@\n");
    let img = solid(1, 1, 0);
    assert_eq!(render_text(&img, &ramp), " \n");
}

#[test]
fn asciify_fills_the_grid_from_a_small_image() {
    let ramp = Ramp::from_text(" .#").unwrap();
    let text = asciify(&gradient(3, 2), &ramp);
    assert_grid_shape(&text, " .#");
}

#[test]
fn asciify_fills_the_grid_from_a_large_image() {
    let ramp = Ramp::standard();
    let text = asciify(&gradient(400, 300), &ramp);
    assert_grid_shape(&text, STANDARD_GLYPHS);
}

#[test]
fn asciify_keeps_a_grid_sized_image_as_is() {
    let ramp = Ramp::standard();
    let img = gradient(GRID_WIDTH, GRID_HEIGHT);
    assert_eq!(asciify(&img, &ramp), render_text(&img, &ramp));
}

#[test]
fn asciify_of_uniform_images() {
    let ramp = Ramp::from_text(" .#").unwrap();
    let white = asciify(&solid(20, 10, 255), &ramp);
    assert!(white.chars().all(|c| c == '#' || c == '\n'));
    let black = asciify(&solid(20, 10, 0), &ramp);
    assert!(black.chars().all(|c| c == ' ' || c == '\n'));
    assert_grid_shape(&white, " .#");
}

#[test]
fn asciify_is_deterministic() {
    let ramp = Ramp::standard();
    let img = gradient(97, 53);
    let first = asciify(&img, &ramp);
    let second = asciify(&img, &ramp);
    assert_eq!(first, second);
}
