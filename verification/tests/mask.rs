use image::Rgb;
use image::RgbImage;
use pixelmask::keystream::next_triple;
use pixelmask::keystream::seed_rng_with_string;
use pixelmask::mask::apply_mask;
use pixelmask::mask::mask_image;
use pixelmask::mask::mask_pixel;
use pixelmask::pixels::PixelBuffer;
use rand::Rng;
use rand::SeedableRng;
use rand_chacha::ChaCha8Rng;
use std::collections::hash_map::DefaultHasher;
use std::hash::Hash;
use std::hash::Hasher;

fn sample(width: u32, height: u32) -> Vec<u8> {
    let mut data = Vec::new();
    for i in 0..(width * height) {
        data.push((i * 3 % 256) as u8);
        data.push((i * 5 % 256) as u8);
        data.push((255 - i % 256) as u8);
    }
    data
}

fn generator(password: &str) -> ChaCha8Rng {
    let mut hasher = DefaultHasher::new();
    password.hash(&mut hasher);
    ChaCha8Rng::seed_from_u64(hasher.finish())
}

/// Masks by building the whole mask as an image first, then combining the
/// two images pixel by pixel, column after column.
fn masked_by_mask_image(width: u32, height: u32, data: &[u8], password: &str) -> Vec<u8> {
    let mut rng = generator(password);
    let mask = RgbImage::from_fn(width, height, |_, _| Rgb(rng.gen::<[u8; 3]>()));
    let mut img = RgbImage::from_raw(width, height, data.to_vec()).unwrap();
    for x in 0..width {
        for y in 0..height {
            let mask_px = *mask.get_pixel(x, y);
            let img_px = img.get_pixel_mut(x, y);
            for i in 0..3 {
                img_px.0[i] ^= mask_px.0[i];
            }
        }
    }
    img.into_raw()
}

fn masked(width: u32, height: u32, data: &[u8], password: &str) -> Vec<u8> {
    let mut buf = PixelBuffer::from_raw(width, height, data.to_vec()).unwrap();
    mask_image(&mut buf, password);
    assert_eq!(buf.dimensions(), (width, height));
    buf.into_raw()
}

#[test]
fn pixel_is_combined_channel_by_channel() {
    assert_eq!(mask_pixel((0b1010_1010, 0xff, 0x00), (0b0110_0110, 0x0f, 0x5a)), (0b1100_1100, 0xf0, 0x5a));
    assert_eq!(mask_pixel((1, 2, 3), (0, 0, 0)), (1, 2, 3));
    assert_eq!(mask_pixel((1, 2, 3), (1, 2, 3)), (0, 0, 0));
    assert_eq!(mask_pixel((1, 2, 3), (255, 255, 255)), (254, 253, 252));
}

#[test]
fn pixel_combined_twice_is_the_pixel() {
    for p in [(0u8, 0u8, 0u8), (1, 2, 3), (255, 128, 7)] {
        for m in [(0u8, 0u8, 0u8), (9, 99, 199), (255, 255, 255)] {
            assert_eq!(mask_pixel(mask_pixel(p, m), m), p);
        }
    }
}

#[test]
fn masking_twice_gives_the_image_back() {
    for (width, height) in [(1, 1), (1, 9), (9, 1), (4, 4), (13, 7), (64, 48)] {
        for password in ["", "q", "hunter2", "a much longer pass phrase", "p\u{e4}ssw\u{f6}rd"] {
            let data = sample(width, height);
            let once = masked(width, height, &data, password);
            assert_eq!(once.len(), data.len());
            let twice = masked(width, height, &once, password);
            assert_eq!(twice, data, "{width}x{height} with {password:?}");
        }
    }
}

#[test]
fn masking_changes_the_image() {
    let data = sample(16, 16);
    let once = masked(16, 16, &data, "secret");
    assert_ne!(once, data);
    let differing = once.iter().zip(&data).filter(|(a, b)| a != b).count();
    assert!(differing > data.len() / 2);
}

#[test]
fn unmasking_with_another_password_does_not_give_the_image_back() {
    let data = sample(16, 16);
    let once = masked(16, 16, &data, "secret");
    let twice = masked(16, 16, &once, "secreT");
    assert_ne!(twice, data);
}

#[test]
fn mask_is_the_stream_in_row_major_order() {
    for (width, height) in [(1, 1), (2, 3), (3, 2), (17, 5), (5, 17)] {
        for password in ["", "secret", "another one"] {
            let data = sample(width, height);
            assert_eq!(
                masked(width, height, &data, password),
                masked_by_mask_image(width, height, &data, password),
                "{width}x{height} with {password:?}"
            );
        }
    }
}

#[test]
fn each_pixel_takes_its_own_triple() {
    let (width, height) = (6u32, 4u32);
    let data = vec![0u8; (width * height * 3) as usize];
    let out = masked(width, height, &data, "stream");
    let mut rng = generator("stream");
    for i in 0..(width * height) as usize {
        let triple = rng.gen::<[u8; 3]>();
        assert_eq!(&out[3 * i..3 * i + 3], &triple[..], "pixel {i}");
    }
}

#[test]
fn seeded_generator_is_the_hashed_password_fed_to_chacha() {
    for password in ["", "a", "secret", "\u{2588}\u{2588}"] {
        let mut ours = seed_rng_with_string(password);
        let mut plain = generator(password);
        for _ in 0..64 {
            assert_eq!(ours.gen::<[u8; 3]>(), plain.gen::<[u8; 3]>());
        }
    }
}

#[test]
fn same_password_gives_the_same_stream() {
    let mut first = seed_rng_with_string("determinism");
    let mut second = seed_rng_with_string("determinism");
    for i in 0..20_000 {
        assert_eq!(next_triple(&mut first), next_triple(&mut second), "triple {i}");
    }
}

#[test]
fn empty_password_gives_a_stream_too() {
    let mut first = seed_rng_with_string("");
    let mut second = seed_rng_with_string("");
    let mut all_zero = true;
    for _ in 0..1000 {
        let triple = next_triple(&mut first);
        assert_eq!(triple, next_triple(&mut second));
        all_zero = all_zero && triple == (0, 0, 0);
    }
    assert!(!all_zero);
}

#[test]
fn different_passwords_give_different_streams() {
    let mut first = seed_rng_with_string("alpha");
    let mut second = seed_rng_with_string("beta");
    let mut same = 0;
    for _ in 0..1000 {
        if next_triple(&mut first) == next_triple(&mut second) {
            same += 1;
        }
    }
    assert!(same < 10);
}

#[test]
fn next_triple_advances_the_generator() {
    let mut ours = seed_rng_with_string("advance");
    let mut plain = generator("advance");
    let mut distinct = false;
    let mut previous = None;
    for _ in 0..100 {
        let [a, b, c] = plain.gen::<[u8; 3]>();
        let triple = next_triple(&mut ours);
        assert_eq!(triple, (a, b, c));
        if let Some(p) = previous {
            distinct = distinct || p != triple;
        }
        previous = Some(triple);
    }
    assert!(distinct);
}

#[test]
fn apply_mask_draws_one_triple_per_pixel() {
    let (width, height) = (5u32, 3u32);
    let data = sample(width, height);
    let mut rng = seed_rng_with_string("shared");
    let mut first = PixelBuffer::from_raw(width, height, data.clone()).unwrap();
    apply_mask(&mut first, &mut rng);
    let mut second = PixelBuffer::from_raw(width, height, data.clone()).unwrap();
    apply_mask(&mut second, &mut rng);

    // The two buffers took the first and the second fifteen triples.
    let mut plain = generator("shared");
    let mut expected_first = data.clone();
    for byte in expected_first.chunks_mut(3) {
        let triple = plain.gen::<[u8; 3]>();
        for i in 0..3 {
            byte[i] ^= triple[i];
        }
    }
    let mut expected_second = data.clone();
    for byte in expected_second.chunks_mut(3) {
        let triple = plain.gen::<[u8; 3]>();
        for i in 0..3 {
            byte[i] ^= triple[i];
        }
    }
    assert_eq!(first.into_raw(), expected_first);
    assert_eq!(second.into_raw(), expected_second);
    assert_ne!(expected_first, expected_second);
    assert_eq!(next_triple(&mut rng), {
        let [a, b, c] = plain.gen::<[u8; 3]>();
        (a, b, c)
    });
}

#[test]
fn apply_mask_with_a_fresh_generator_is_mask_image() {
    let data = sample(9, 9);
    let mut buf = PixelBuffer::from_raw(9, 9, data.clone()).unwrap();
    let mut rng = seed_rng_with_string("fresh");
    apply_mask(&mut buf, &mut rng);
    assert_eq!(buf.into_raw(), masked(9, 9, &data, "fresh"));
}
