use i3f::{IiifError, RasterImage, Size, SizeFault, SizeLimits};

#[test]
fn test_size_parsing() {
    assert_eq!(Size::from_str("max").unwrap(), Size::Max);
    assert_eq!(Size::from_str("^max").unwrap(), Size::CMax);

    assert_eq!(Size::from_str("150,").unwrap(), Size::W { w: 150 });
    assert_eq!(Size::from_str("^360,").unwrap(), Size::CW { w: 360 });
    assert_eq!(Size::from_str(",150").unwrap(), Size::H { h: 150 });
    assert_eq!(Size::from_str("^,240").unwrap(), Size::CH { h: 240 });
    assert_eq!(Size::from_str(",^240").unwrap(), Size::CH { h: 240 });

    assert_eq!(Size::from_str("pct:50").unwrap(), Size::Pct { n: 50 });
    assert!(Size::from_str("pct:150").is_err());
    assert_eq!(Size::from_str("^pct:150").unwrap(), Size::CPct { n: 150 });

    assert_eq!(Size::from_str("225,100").unwrap(), Size::WH { w: 225, h: 100 });
    assert_eq!(Size::from_str("^360,360").unwrap(), Size::CWH { w: 360, h: 360 });

    assert_eq!(Size::from_str("!225,100").unwrap(), Size::LWH { w: 225, h: 100 });
    assert_eq!(Size::from_str("^!360,360").unwrap(), Size::CLWH { w: 360, h: 360 });
}

#[test]
fn test_size_display() {
    assert_eq!(Size::Max.to_string(), "max");
    assert_eq!(Size::Pct { n: 50 }.to_string(), "pct:50");
    assert_eq!(Size::WH { w: 100, h: 200 }.to_string(), "100,200");
    assert_eq!(Size::LWH { w: 100, h: 200 }.to_string(), "!100,200");
}

#[test]
fn test_roundtrip() {
    let cases = [
        "max", "^max", "150,", "^360,", ",150", "pct:50", "^pct:150", "225,100", "^360,360",
        "!225,100", "^!360,360",
    ];

    for case in cases {
        let size = Size::from_str(case).unwrap();
        assert_eq!(size.to_string(), case);
    }
}

#[test]
fn size_round_trip_of_every_form() {
    let sizes = [
        Size::Max,
        Size::CMax,
        Size::W { w: 0 },
        Size::CW { w: 4294967295 },
        Size::H { h: 7 },
        Size::CH { h: 240 },
        Size::Pct { n: 100 },
        Size::CPct { n: 101 },
        Size::WH { w: 1, h: 2 },
        Size::CWH { w: 3, h: 4 },
        Size::LWH { w: 5, h: 6 },
        Size::CLWH { w: 7, h: 8 },
    ];
    for size in sizes {
        assert_eq!(Size::from_str(&size.to_string()).unwrap(), size);
    }
    assert_eq!(Size::CH { h: 240 }.to_string(), "^,240");
}

#[test]
fn size_parsing_rejects_other_texts() {
    for text in [
        "", "^", "150", ",", "^,", "a,", ",b", "abc,100", "100,abc", "1,2,3", "!1", "!1,2,3",
        "!,2", "pct:", "pct:a", "pct:101", "pct:-1", "4294967296,", "full", "^^max", "!^1,2",
    ] {
        assert_eq!(
            Size::from_str(text).unwrap_err(),
            IiifError::BadRequest(format!("Invalid size format: {}", text)),
            "{}",
            text
        );
    }
}

#[test]
fn size_parsing_folds_case_and_trims() {
    assert_eq!(Size::from_str(" MAX ").unwrap(), Size::Max);
    assert_eq!(Size::from_str("PCT:25").unwrap(), Size::Pct { n: 25 });
    assert_eq!(Size::from_str("+5,").unwrap(), Size::W { w: 5 });
    assert_eq!(Size::from_str("007,08").unwrap(), Size::WH { w: 7, h: 8 });
    assert_eq!(Size::from_str("^10,^20").unwrap(), Size::CWH { w: 10, h: 20 });
    assert_eq!(Size::from_str("10,^20").unwrap(), Size::CWH { w: 10, h: 20 });
}

#[test]
fn size_helpers_read_their_part() {
    let chars = |s: &str| s.chars().collect::<Vec<char>>();
    assert_eq!(Size::parse_two_nums(&chars("12,34")), Some((12, 34)));
    assert_eq!(Size::parse_two_nums(&chars("12")), None);
    assert_eq!(Size::parse_pct(&chars("100"), false), Some(Size::Pct { n: 100 }));
    assert_eq!(Size::parse_pct(&chars("101"), false), None);
    assert_eq!(Size::parse_pct(&chars("101"), true), Some(Size::CPct { n: 101 }));
    assert_eq!(Size::parse_fit(&chars("3,4"), false), Some(Size::LWH { w: 3, h: 4 }));
    assert_eq!(Size::parse_fit(&chars("3,4"), true), Some(Size::CLWH { w: 3, h: 4 }));
    assert_eq!(Size::parse_dims(&chars("3,"), false), Some(Size::W { w: 3 }));
    assert_eq!(Size::parse_dims(&chars(",4"), true), Some(Size::CH { h: 4 }));
    assert_eq!(Size::parse_content(&chars("pct:9"), false), Some(Size::Pct { n: 9 }));
    assert_eq!(Size::parse_content(&chars("!3,4"), false), Some(Size::LWH { w: 3, h: 4 }));
    assert_eq!(Size::parse_content(&chars("34"), false), None);
}

#[test]
fn size_resolves_widths_and_confined_fits() {
    let none = SizeLimits::none();
    assert_eq!(Size::W { w: 150 }.resolve(300, 200, &none), Ok((150, 100)));
    assert_eq!(Size::LWH { w: 225, h: 100 }.resolve(300, 200, &none), Ok((150, 100)));
    assert_eq!(Size::CLWH { w: 360, h: 360 }.resolve(300, 200, &none), Ok((360, 240)));
    assert_eq!(Size::H { h: 100 }.resolve(300, 200, &none), Ok((150, 100)));
    assert_eq!(Size::CW { w: 600 }.resolve(300, 200, &none), Ok((600, 400)));
    assert_eq!(Size::CH { h: 400 }.resolve(300, 200, &none), Ok((600, 400)));
    assert_eq!(Size::Pct { n: 50 }.resolve(300, 200, &none), Ok((150, 100)));
    assert_eq!(Size::CPct { n: 150 }.resolve(300, 200, &none), Ok((450, 300)));
    assert_eq!(Size::WH { w: 225, h: 100 }.resolve(300, 200, &none), Ok((225, 100)));
    assert_eq!(Size::CWH { w: 360, h: 360 }.resolve(300, 200, &none), Ok((360, 360)));
    assert_eq!(Size::Max.resolve(300, 200, &none), Ok((300, 200)));
    assert_eq!(Size::CMax.resolve(300, 200, &none), Ok((300, 200)));
    assert_eq!(Size::LWH { w: 500, h: 500 }.resolve(300, 200, &none), Ok((300, 200)));
    assert_eq!(Size::LWH { w: 100, h: 500 }.resolve(300, 200, &none), Ok((100, 67)));
}

#[test]
fn size_rounds_halves_away_from_zero() {
    let none = SizeLimits::none();
    assert_eq!(Size::W { w: 1 }.resolve(2, 1, &none), Ok((1, 1)));
    assert_eq!(Size::W { w: 1 }.resolve(4, 1, &none), Err(SizeFault::Empty));
    assert_eq!(Size::W { w: 3 }.resolve(4, 2, &none), Ok((3, 2)));
    assert_eq!(Size::Pct { n: 50 }.resolve(3, 5, &none), Ok((2, 3)));
    assert_eq!(Size::Pct { n: 33 }.resolve(100, 50, &none), Ok((33, 17)));
}

#[test]
fn size_faults() {
    let none = SizeLimits::none();
    assert_eq!(Size::Max.resolve(0, 200, &none), Err(SizeFault::EmptyRegion));
    assert_eq!(Size::W { w: 5 }.resolve(10, 0, &none), Err(SizeFault::EmptyRegion));
    assert_eq!(Size::W { w: 301 }.resolve(300, 200, &none), Err(SizeFault::Upscale));
    assert_eq!(Size::H { h: 201 }.resolve(300, 200, &none), Err(SizeFault::Upscale));
    assert_eq!(Size::Pct { n: 101 }.resolve(300, 200, &none), Err(SizeFault::Upscale));
    assert_eq!(Size::WH { w: 301, h: 1 }.resolve(300, 200, &none), Err(SizeFault::Upscale));
    assert_eq!(Size::WH { w: 1, h: 201 }.resolve(300, 200, &none), Err(SizeFault::Upscale));
    assert_eq!(Size::W { w: 300 }.resolve(300, 200, &none), Ok((300, 200)));
    assert_eq!(
        Size::CW { w: 4294967295 }.resolve(1, 2, &none),
        Err(SizeFault::TooLarge)
    );
    assert_eq!(Size::CPct { n: 4294967295 }.resolve(300, 200, &none), Err(SizeFault::TooLarge));
    assert_eq!(Size::W { w: 0 }.resolve(300, 200, &none), Err(SizeFault::Empty));
    assert_eq!(Size::CWH { w: 0, h: 9 }.resolve(300, 200, &none), Err(SizeFault::Empty));
    assert_eq!(Size::Pct { n: 0 }.resolve(300, 200, &none), Err(SizeFault::Empty));
}

#[test]
fn size_fault_reasons() {
    assert_eq!(SizeFault::EmptyRegion.reason(), "Region is empty: ");
    assert_eq!(SizeFault::Upscale.reason(), "Size exceeds the region: ");
    assert_eq!(SizeFault::TooLarge.reason(), "Size is too large: ");
    assert_eq!(SizeFault::Empty.reason(), "Width or height is 0: ");
    assert_eq!(
        Size::W { w: 9 }.refused(SizeFault::Upscale),
        IiifError::BadRequest("Size exceeds the region: 9,".to_string())
    );
}

#[test]
fn size_max_respects_limits() {
    let limits = SizeLimits { max_width: Some(150), max_height: None, max_area: None };
    assert_eq!(Size::Max.resolve(300, 200, &limits), Ok((150, 100)));
    assert_eq!(Size::CMax.resolve(300, 200, &limits), Ok((150, 100)));
    let limits = SizeLimits { max_width: Some(600), max_height: None, max_area: None };
    assert_eq!(Size::Max.resolve(300, 200, &limits), Ok((300, 200)));
    assert_eq!(Size::CMax.resolve(300, 200, &limits), Ok((600, 400)));
    let limits = SizeLimits { max_width: None, max_height: Some(50), max_area: None };
    assert_eq!(Size::Max.resolve(300, 200, &limits), Ok((75, 50)));
    let limits = SizeLimits { max_width: None, max_height: None, max_area: Some(15000) };
    assert_eq!(Size::Max.resolve(300, 200, &limits), Ok((150, 100)));
    assert_eq!(Size::CMax.resolve(30, 20, &limits), Ok((150, 100)));
    let limits = SizeLimits { max_width: Some(1000), max_height: Some(100), max_area: Some(6) };
    assert_eq!(Size::CMax.resolve(300, 200, &limits), Ok((3, 2)));
    let limits = SizeLimits { max_width: None, max_height: None, max_area: Some(0) };
    assert_eq!(Size::Max.resolve(300, 200, &limits), Err(SizeFault::Empty));
}

#[test]
fn size_process_scales_the_image() {
    let none = SizeLimits::none();
    let image = RasterImage::new(30, 20, vec![90u8; 2400]).unwrap();
    let out = Size::W { w: 15 }.process(image, &none).unwrap();
    assert_eq!((out.width(), out.height()), (15, 10));
    assert_eq!(out.pixels().len(), 600);

    let image = RasterImage::new(30, 20, vec![90u8; 2400]).unwrap();
    let out = Size::CWH { w: 45, h: 7 }.process(image, &none).unwrap();
    assert_eq!((out.width(), out.height()), (45, 7));

    let pixels: Vec<u8> = (0..2400u32).map(|i| (i % 251) as u8).collect();
    let image = RasterImage::new(30, 20, pixels.clone()).unwrap();
    let out = Size::Max.process(image, &none).unwrap();
    assert_eq!(out.into_pixels(), pixels);

    let image = RasterImage::new(30, 20, vec![90u8; 2400]).unwrap();
    assert_eq!(
        Size::W { w: 31 }.process(image, &none).unwrap_err(),
        IiifError::BadRequest("Size exceeds the region: 31,".to_string())
    );
}
