use led_oxide::color;

#[test]
fn color_to_u32_test() {
    assert_eq!(
        color::Color24 {
            r: 0x00,
            g: 0x00,
            b: 0x00
        }
        .to_u32(),
        0x00000000
    );

    assert_eq!(
        color::Color24 {
            r: 0x55,
            g: 0x55,
            b: 0x55
        }
        .to_u32(),
        0x00555555
    );

    assert_eq!(
        color::Color24 {
            r: 0xaa,
            g: 0xaa,
            b: 0xaa
        }
        .to_u32(),
        0x00aaaaaa
    );

    assert_eq!(
        color::Color24 {
            r: 0xff,
            g: 0xff,
            b: 0xff
        }
        .to_u32(),
        0x00ffffff
    );

    assert_eq!(
        color::Color24 {
            r: 0xc2,
            g: 0xb4,
            b: 0xf3
        }
        .to_u32(),
        0x00c2b4f3
    );
}

#[test]
fn color_from_u32_test() {
    // 0x00000000
    let c1 = color::Color24::from_u32(0x00000000);
    let c2 = color::Color24 {
        r: 0x00,
        g: 0x00,
        b: 0x00,
    };

    assert_eq!(c1.r, c2.r);
    assert_eq!(c1.g, c2.g);
    assert_eq!(c1.b, c2.b);

    // 0x00555555
    let c1 = color::Color24::from_u32(0x00555555);
    let c2 = color::Color24 {
        r: 0x55,
        g: 0x55,
        b: 0x55,
    };

    assert_eq!(c1.r, c2.r);
    assert_eq!(c1.g, c2.g);
    assert_eq!(c1.b, c2.b);

    // 0x00aaaaaa
    let c1 = color::Color24::from_u32(0x00aaaaaa);
    let c2 = color::Color24 {
        r: 0xaa,
        g: 0xaa,
        b: 0xaa,
    };

    assert_eq!(c1.r, c2.r);
    assert_eq!(c1.g, c2.g);
    assert_eq!(c1.b, c2.b);

    // 0x00ffffff
    let c1 = color::Color24::from_u32(0x00ffffff);
    let c2 = color::Color24 {
        r: 0xff,
        g: 0xff,
        b: 0xff,
    };

    assert_eq!(c1.r, c2.r);
    assert_eq!(c1.g, c2.g);
    assert_eq!(c1.b, c2.b);

    // 0x00c2b4f3
    let c1 = color::Color24::from_u32(0x00c2b4f3);
    let c2 = color::Color24 {
        r: 0xc2,
        g: 0xb4,
        b: 0xf3,
    };

    assert_eq!(c1.r, c2.r);
    assert_eq!(c1.g, c2.g);
    assert_eq!(c1.b, c2.b);
}

#[test]
fn color_round_trip_on_24_bit_values() {
    for x in [0u32, 1, 0xff, 0x100, 0x4f2d86, 0x123456, 0xabcdef, 0xfffffe, 0xffffff] {
        assert_eq!(color::Color24::from_u32(x).to_u32(), x);
    }
}

#[test]
fn color_from_u32_ignores_bits_above_23() {
    let c = color::Color24::from_u32(0xff4f2d86);
    assert_eq!(c, color::Color24 { r: 0x4f, g: 0x2d, b: 0x86 });
    assert_eq!(c.to_u32(), 0x004f2d86);
}
