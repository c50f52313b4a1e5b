use rspin::pyramid::{downsample_half, generate_mipmaps, swap_rb_channels, ImageData};

fn solid(w: u32, h: u32, px: [u8; 4]) -> Vec<u8> {
    let mut v = Vec::new();
    for _ in 0..(w as usize * h as usize) {
        v.push(px[0]);
        v.push(px[1]);
        v.push(px[2]);
        v.push(px[3]);
    }
    v
}

#[test]
fn pyramid_512_has_exactly_two_levels() {
    let data = solid(512, 512, [1, 2, 3, 255]);
    let mips = generate_mipmaps(512, 512, &data);
    assert_eq!(mips.len(), 2);
    assert_eq!((mips[0].width, mips[0].height), (256, 256));
    assert_eq!((mips[1].width, mips[1].height), (128, 128));
    assert_eq!(mips[0].data.len(), 256 * 256 * 4);
    assert_eq!(mips[1].data.len(), 128 * 128 * 4);
}

#[test]
fn pyramid_levels_strictly_halve_and_stay_at_32() {
    let data = solid(2000, 3000, [0, 0, 0, 0]);
    let mips = generate_mipmaps(2000, 3000, &data);
    let mut pw = 2000u32;
    let mut ph = 3000u32;
    for m in &mips {
        assert_eq!(m.width, pw / 2);
        assert_eq!(m.height, ph / 2);
        assert!(m.width >= 32 && m.height >= 32);
        pw = m.width;
        ph = m.height;
    }
    assert!(mips.len() <= 8);
}

#[test]
fn pyramid_small_images_get_no_levels() {
    let data = solid(64, 64, [9, 9, 9, 9]);
    assert_eq!(generate_mipmaps(64, 64, &data).len(), 0);
    let data2 = solid(100, 100, [9, 9, 9, 9]);
    assert_eq!(generate_mipmaps(100, 100, &data2).len(), 0);
}

#[test]
fn pyramid_rectangular_stops_at_the_32_floor() {
    let data = solid(200, 3000, [0, 0, 0, 0]);
    let mips = generate_mipmaps(200, 3000, &data);
    assert_eq!(mips.len(), 2);
    assert_eq!((mips[0].width, mips[0].height), (100, 1500));
    assert_eq!((mips[1].width, mips[1].height), (50, 750));
}

#[test]
fn box_filter_averages_two_by_two_blocks() {
    // One destination pixel from four sources, per channel, floored.
    let src = vec![
        10, 0, 0, 255, 20, 0, 0, 255, //
        31, 0, 0, 255, 40, 0, 0, 255,
    ];
    let out = downsample_half(&src, 2, 2);
    assert_eq!(out.len(), 4);
    assert_eq!(out[0], (10 + 20 + 31 + 40) / 4);
    assert_eq!(out[1], 0);
    assert_eq!(out[3], 255);
}

#[test]
fn channel_swap_flips_first_and_third_bytes() {
    let mut v = vec![1, 2, 3, 4, 5, 6, 7, 8];
    swap_rb_channels(&mut v);
    assert_eq!(v, vec![3, 2, 1, 4, 7, 6, 5, 8]);
}

#[test]
fn image_data_builds_its_pyramid() {
    let im = ImageData::new(512, 512, solid(512, 512, [5, 6, 7, 255]));
    assert_eq!(im.mipmaps.len(), 2);
    // A solid image stays solid through the box filter.
    assert_eq!(im.mipmaps[1].data[0], 5);
    assert_eq!(im.mipmaps[1].data[3], 255);
}
