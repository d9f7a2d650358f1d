use i3f::{Decimal, IiifError, RasterImage, Region};

fn dec(text: &str) -> Decimal {
    Decimal::from_str(text).unwrap()
}

fn pct(x: &str, y: &str, w: &str, h: &str) -> Region {
    Region::Pct(dec(x), dec(y), dec(w), dec(h))
}

fn numbered(width: u32, height: u32) -> RasterImage {
    let mut pixels = Vec::new();
    for y in 0..height {
        for x in 0..width {
            pixels.extend_from_slice(&[x as u8, y as u8, (x + y) as u8, 255]);
        }
    }
    RasterImage::new(width, height, pixels).unwrap()
}

#[test]
fn test_region_from_str() {
    assert_eq!(Region::from_str("full").unwrap(), Region::Full);
    assert_eq!(Region::from_str("square").unwrap(), Region::Square);
    assert_eq!(
        Region::from_str("125,15,120,140").unwrap(),
        Region::Rect(125, 15, 120, 140)
    );
    assert_eq!(
        Region::from_str("pct:10,20,30,40").unwrap(),
        pct("10.0", "20.0", "30.0", "40.0")
    );
    assert_eq!(
        Region::from_str("pct:41.6,7.5,40,70").unwrap(),
        pct("41.6", "7.5", "40.0", "70.0")
    );
    assert!(Region::from_str("invalid").is_err());
}

#[test]
fn test_region_display() {
    assert_eq!(Region::Full.to_string(), "full");
    assert_eq!(Region::Square.to_string(), "square");
    assert_eq!(Region::Rect(10, 20, 30, 40).to_string(), "10,20,30,40");
    assert_eq!(pct("10.0", "20.0", "30.0", "40.0").to_string(), "pct:10,20,30,40");
    assert_eq!(pct("41.6", "7.5", "40.0", "70.0").to_string(), "pct:41.6,7.5,40,70");
    let a: Region = "pct:41.6,7.5,40,70".parse().unwrap();
    assert_eq!(a, pct("41.6", "7.5", "40.0", "70.0"));
}

#[test]
fn test_region_get_region() {
    let width = 300;
    let height = 200;
    let region1 = Region::Full;
    let (x, y, w, h) = region1.get_region(width, height).unwrap();
    assert_eq!((x, y, w, h), (0, 0, width, height));

    let region2 = Region::Square;
    let (x, y, w, h) = region2.get_region(width, height).unwrap();
    assert_eq!((x, y, w, h), (50, 0, 200, 200));

    let region3 = Region::Rect(125, 15, 120, 140);
    let (x, y, w, h) = region3.get_region(width, height).unwrap();
    assert_eq!((x, y, w, h), (125, 15, 120, 140));

    let region4 = pct("41.6", "7.5", "40.0", "70.0");
    let (x, y, w, h) = region4.get_region(width, height).unwrap();
    assert_eq!((x, y, w, h), (125, 15, 120, 140));

    let region5 = Region::Rect(125, 15, 200, 200);
    let (x, y, w, h) = region5.get_region(width, height).unwrap();
    assert_eq!((x, y, w, h), (125, 15, 175, 185));

    let region6 = pct("41.6", "7.5", "66.6", "100.0");
    let (x, y, w, h) = region6.get_region(width, height).unwrap();
    assert_eq!((x, y, w, h), (125, 15, 175, 185));
}

#[test]
fn region_square_is_centred_on_the_longer_axis() {
    for (w, h) in [(300u32, 200u32), (200, 300), (7, 7), (1, 10), (0, 5), (5, 0), (4294967295, 1)] {
        let side = w.min(h);
        assert_eq!(
            Region::Square.get_region(w, h).unwrap(),
            ((w - side) / 2, (h - side) / 2, side, side)
        );
    }
    assert_eq!(Region::Square.get_region(200, 301).unwrap(), (0, 50, 200, 200));
}

#[test]
fn region_parsing_rejects_other_texts() {
    for text in [
        "", "fulll", "1,2,3", "1,2,3,4,5", "1,2,3,a", "1,2,,4", "pct:1,2,3", "pct:1,2,3,4,5",
        "pct:a,2,3,4", "pct:", "pct:1e2,0,1,1", "pct:nan,0,1,1", "-1,2,3,4", "4294967296,0,1,1",
        "1.5,2,3,4", "pct:.,0,1,1",
    ] {
        assert_eq!(
            Region::from_str(text).unwrap_err(),
            IiifError::BadRequest(format!("Invalid region format: {}", text)),
            "{}",
            text
        );
    }
}

#[test]
fn region_parsing_folds_case_and_trims() {
    assert_eq!(Region::from_str(" FULL\t").unwrap(), Region::Full);
    assert_eq!(Region::from_str("Square").unwrap(), Region::Square);
    assert_eq!(Region::from_str("PCT:1,2,3,4").unwrap(), pct("1", "2", "3", "4"));
    assert_eq!(Region::from_str("pct:.5,5.,+3,-0").unwrap(), pct("0.5", "5", "3", "0"));
    assert_eq!(Region::from_str("+1,02,3,4").unwrap(), Region::Rect(1, 2, 3, 4));
}

#[test]
fn region_round_trip() {
    for region in [
        Region::Full,
        Region::Square,
        Region::Rect(0, 0, 0, 0),
        Region::Rect(4294967295, 1, 22, 333),
        pct("0", "0.000000001", "99.999999999", "100"),
        pct("-5", "12.25", "0.5", "18446744073709551615"),
    ] {
        assert_eq!(Region::from_str(&region.to_string()).unwrap(), region);
    }
}

#[test]
fn region_rejects_degenerate_and_outside_boxes() {
    assert_eq!(
        Region::Rect(0, 0, 0, 5).get_region(300, 200).unwrap_err(),
        IiifError::BadRequest("Width or height is 0: 0,0,0,5".to_string())
    );
    assert_eq!(
        Region::Rect(300, 0, 0, 5).get_region(300, 200).unwrap_err(),
        IiifError::BadRequest("Width or height is 0: 300,0,0,5".to_string())
    );
    assert_eq!(
        Region::Rect(300, 0, 1, 5).get_region(300, 200).unwrap_err(),
        IiifError::BadRequest("X or Y is out of bounds: 300,0,1,5".to_string())
    );
    assert_eq!(
        Region::Rect(0, 200, 1, 5).get_region(300, 200).unwrap_err(),
        IiifError::BadRequest("X or Y is out of bounds: 0,200,1,5".to_string())
    );
    assert_eq!(
        pct("0", "0", "0", "50").get_region(300, 200).unwrap_err(),
        IiifError::BadRequest("Width or height is 0: pct:0,0,0,50".to_string())
    );
    assert_eq!(
        pct("100", "0", "10", "50").get_region(300, 200).unwrap_err(),
        IiifError::BadRequest("X or Y is out of bounds: pct:100,0,10,50".to_string())
    );
    assert_eq!(
        pct("0", "100.5", "10", "50").get_region(300, 200).unwrap_err(),
        IiifError::BadRequest("X or Y is out of bounds: pct:0,100.5,10,50".to_string())
    );
    assert_eq!(Region::Rect(299, 199, 1, 1).get_region(300, 200).unwrap(), (299, 199, 1, 1));
}

#[test]
fn region_percentages_round_each_value_by_itself() {
    assert_eq!(pct("50", "50", "50", "50").get_region(3, 5).unwrap(), (2, 3, 2, 3));
    assert_eq!(pct("0", "0", "100", "100").get_region(300, 200).unwrap(), (0, 0, 300, 200));
    assert_eq!(pct("0", "0", "500", "500").get_region(300, 200).unwrap(), (0, 0, 300, 200));
    assert_eq!(pct("-10", "-10", "20", "20").get_region(300, 200).unwrap(), (0, 0, 60, 40));
    assert_eq!(pct("10", "10", "-20", "5").get_region(300, 200).unwrap(), (30, 20, 0, 10));
    assert_eq!(pct("0", "0", "0.1", "0.2").get_region(300, 200).unwrap(), (0, 0, 0, 0));
    assert_eq!(pct("0", "0", "0.5", "0.25").get_region(100, 200).unwrap(), (0, 0, 1, 1));
    assert_eq!(pct("99.999999999", "0", "5", "5").get_region(4294967295, 1).unwrap().0, 4294967295);
    assert_eq!(
        pct("-18446744073709551615", "0", "18446744073709551615", "1")
            .get_region(4294967295, 100)
            .unwrap(),
        (0, 0, 4294967295, 1)
    );
}

#[test]
fn region_process_crops_the_pixels() {
    let out = Region::Rect(2, 1, 3, 2).process(numbered(6, 4)).unwrap();
    assert_eq!((out.width(), out.height()), (3, 2));
    assert_eq!(
        out.into_pixels(),
        vec![
            2, 1, 3, 255, 3, 1, 4, 255, 4, 1, 5, 255, 2, 2, 4, 255, 3, 2, 5, 255, 4, 2, 6, 255
        ]
    );
    let out = Region::Rect(4, 3, 10, 10).process(numbered(6, 4)).unwrap();
    assert_eq!((out.width(), out.height()), (2, 1));
    assert_eq!(out.into_pixels(), vec![4, 3, 7, 255, 5, 3, 8, 255]);
    let out = Region::Square.process(numbered(6, 4)).unwrap();
    assert_eq!((out.width(), out.height()), (4, 4));
    assert_eq!(&out.pixels()[0..4], &[1, 0, 1, 255]);
    let out = Region::Full.process(numbered(6, 4)).unwrap();
    assert_eq!(out.into_pixels(), numbered(6, 4).into_pixels());
    let out = pct("50", "50", "50", "50").process(numbered(3, 5)).unwrap();
    assert_eq!((out.width(), out.height()), (1, 2));
    assert!(Region::Rect(6, 0, 1, 1).process(numbered(6, 4)).is_err());
}

#[test]
fn raster_is_centred_on_a_transparent_canvas() {
    let out = numbered(2, 1).centred_on(5, 4).unwrap();
    assert_eq!((out.width(), out.height()), (5, 4));
    let mut expected = vec![0u8; 80];
    expected[24..32].copy_from_slice(&[0, 0, 0, 255, 1, 0, 1, 255]);
    assert_eq!(out.into_pixels(), expected);
    let same = numbered(3, 2).centred_on(3, 2).unwrap();
    assert_eq!(same.into_pixels(), numbered(3, 2).into_pixels());
    assert!(numbered(3, 2).centred_on(2, 2).is_none());
    assert!(numbered(3, 2).centred_on(3, 1).is_none());
    assert!(numbered(1, 1).centred_on(4294967295, 4294967295).is_none());
    let empty = numbered(0, 0).centred_on(1, 2).unwrap();
    assert_eq!(empty.into_pixels(), vec![0u8; 8]);
}
