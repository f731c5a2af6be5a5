use ray_canvas::color::pack_bgra;

#[test]
fn opaque_black_has_only_alpha_set() {
    assert_eq!(pack_bgra(0, 0, 0, 255), 0xff00_0000);
}

#[test]
fn opaque_white_has_every_channel_full() {
    assert_eq!(pack_bgra(255, 255, 255, 255), 0xffff_ffff);
}

#[test]
fn transparent_black_is_zero() {
    assert_eq!(pack_bgra(0, 0, 0, 0), 0);
}

#[test]
fn each_channel_has_its_own_byte() {
    assert_eq!(pack_bgra(255, 0, 0, 0), 0x00ff_0000);
    assert_eq!(pack_bgra(0, 255, 0, 0), 0x0000_ff00);
    assert_eq!(pack_bgra(0, 0, 255, 0), 0x0000_00ff);
    assert_eq!(pack_bgra(0, 0, 0, 255), 0xff00_0000);
    assert_eq!(pack_bgra(0x12, 0x34, 0x56, 0x78), 0x7812_3456);
    assert_eq!(pack_bgra(1, 2, 3, 4), 0x0401_0203);
}

#[test]
fn packed_bytes_are_blue_green_red_alpha() {
    assert_eq!(pack_bgra(10, 20, 30, 40).to_le_bytes(), [30, 20, 10, 40]);
}

#[test]
fn channels_read_back_from_every_corner_of_the_range() {
    let samples: [u8; 6] = [0, 1, 127, 128, 254, 255];
    for &r in &samples {
        for &g in &samples {
            for &b in &samples {
                for &a in &samples {
                    let pixel = pack_bgra(r, g, b, a);
                    assert_eq!((pixel >> 16) & 0xff, r as u32);
                    assert_eq!((pixel >> 8) & 0xff, g as u32);
                    assert_eq!(pixel & 0xff, b as u32);
                    assert_eq!(pixel >> 24, a as u32);
                }
            }
        }
    }
}
