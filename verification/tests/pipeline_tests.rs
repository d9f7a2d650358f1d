use i3f::{
    Action, Decimal, Event, Format, IiifError, IiifImage, Plan, ProcessResult, RasterImage,
    Rotated, SizeLimits, Turn,
};

fn request(path: &str) -> IiifImage {
    IiifImage::parse_path(path).unwrap()
}

fn source(width: u32, height: u32) -> RasterImage {
    let mut pixels = Vec::new();
    for y in 0..height {
        for x in 0..width {
            pixels.extend_from_slice(&[(x % 256) as u8, (y % 256) as u8, 40, 255]);
        }
    }
    RasterImage::new(width, height, pixels).unwrap()
}

fn png_of(image: RasterImage) -> Vec<u8> {
    Format::Png.process(image).unwrap()
}

#[test]
fn pipeline_plans_the_geometry_of_a_request() {
    let none = SizeLimits::none();
    let plan = request("demo.jpg/square/150,/15/color.png").plan(300, 200, &none).unwrap();
    assert_eq!(
        plan,
        Plan {
            region: (50, 0, 200, 200),
            crop: (200, 200),
            size: (150, 150),
            mirror: false,
            turn: Turn::Free,
        }
    );
    let plan = request("demo.jpg/full/max/0/default.jpg").plan(300, 200, &none).unwrap();
    assert_eq!(
        plan,
        Plan {
            region: (0, 0, 300, 200),
            crop: (300, 200),
            size: (300, 200),
            mirror: false,
            turn: Turn::Stay,
        }
    );
    let plan = request("id/pct:50,50,50,50/max/!270/gray.png").plan(3, 5, &none).unwrap();
    assert_eq!(
        plan,
        Plan {
            region: (2, 3, 2, 3),
            crop: (1, 2),
            size: (1, 2),
            mirror: true,
            turn: Turn::ThreeQuarters,
        }
    );
}

#[test]
fn pipeline_reports_faults_in_stage_order() {
    let none = SizeLimits::none();
    let fault = |path: &str| request(path).plan(300, 200, &none).unwrap_err();
    assert_eq!(
        fault("id/0,0,0,0/301,/400/default.jpg"),
        IiifError::BadRequest("Width or height is 0: 0,0,0,0".to_string())
    );
    assert_eq!(
        fault("id/300,0,1,1/301,/400/default.jpg"),
        IiifError::BadRequest("X or Y is out of bounds: 300,0,1,1".to_string())
    );
    assert_eq!(
        fault("id/full/301,/400/default.jpg"),
        IiifError::BadRequest("Size exceeds the region: 301,".to_string())
    );
    assert_eq!(
        fault("id/full/max/400/default.jpg"),
        IiifError::BadRequest("Rotation angle is out of range".to_string())
    );
    assert_eq!(
        fault("id/pct:0,0,0.1,50/max/0/default.jpg"),
        IiifError::BadRequest("Region is empty: max".to_string())
    );
    let image = source(300, 200);
    assert_eq!(
        request("id/full/301,/400/default.jpg").transform(image, &none).unwrap_err(),
        IiifError::BadRequest("Size exceeds the region: 301,".to_string())
    );
    let image = source(300, 200);
    assert_eq!(
        request("id/full/max/400/default.jpg").transform(image, &none).unwrap_err(),
        IiifError::BadRequest("Rotation angle is out of range".to_string())
    );
}

#[test]
fn pipeline_crops_then_scales_then_rotates() {
    let none = SizeLimits::none();
    match request("id/10,20,40,30/20,/90/default.png").transform(source(300, 200), &none).unwrap() {
        Rotated::Done(image) => assert_eq!((image.width(), image.height()), (15, 20)),
        Rotated::Pending { .. } => panic!("90 degrees is a quarter turn"),
    }
    match request("id/10,20,4,3/max/!180/default.png").transform(source(300, 200), &none).unwrap() {
        Rotated::Done(image) => {
            assert_eq!((image.width(), image.height()), (4, 3));
            assert_eq!(&image.pixels()[0..4], &[10, 22, 40, 255]);
            assert_eq!(&image.pixels()[44..48], &[13, 20, 40, 255]);
        }
        Rotated::Pending { .. } => panic!("180 degrees is a half turn"),
    }
    match request("id/square/150,/15/color.png").transform(source(300, 200), &none).unwrap() {
        Rotated::Pending { image, degrees } => {
            assert_eq!((image.width(), image.height()), (150, 150));
            assert_eq!(degrees, Decimal::from_str("15").unwrap());
        }
        Rotated::Done(_) => panic!("15 degrees is no multiple of 90"),
    }
}

#[test]
fn pipeline_finishes_with_quality_and_format() {
    let result = request("id/full/max/0/bitonal.png").finish(source(20, 10)).unwrap();
    assert_eq!(result.content_type, "image/png");
    let decoded = image::load_from_memory(&result.data).unwrap().into_rgba8();
    assert_eq!((decoded.width(), decoded.height()), (20, 10));
    assert!(decoded.pixels().all(|p| p.0 == [0, 0, 0, 255] || p.0 == [255, 255, 255, 255]));
    let result = request("id/full/max/0/default.pdf").finish(source(20, 10)).unwrap();
    assert_eq!(result.content_type, "application/pdf");
    assert!(result.data.starts_with(b"%PDF-1.5\n"));
    assert_eq!(
        request("id/full/max/0/default.jp2").finish(source(20, 10)).unwrap_err(),
        IiifError::NotImplemented("JPEG 2000 encoding not yet implemented".to_string())
    );
}

#[test]
fn pipeline_steps_from_lookup_to_result() {
    let none = SizeLimits::none();
    let request = request("a%2Fb/0,0,6,4/3,/90/default.png");
    match request.process(Event::Start, &none) {
        Action::Lookup { key } => assert_eq!(key, "a%2Fb/0,0,6,4/3,/90/default.png"),
        other => panic!("unexpected {:?}", other),
    }
    match request.process(Event::Cached(vec![1, 2, 3]), &none) {
        Action::Return(result) => {
            assert_eq!(result.content_type, "image/png");
            assert_eq!(result.data, vec![1, 2, 3]);
        }
        other => panic!("unexpected {:?}", other),
    }
    match request.process(Event::CacheMiss, &none) {
        Action::Fetch { identifier } => assert_eq!(identifier, "a/b"),
        other => panic!("unexpected {:?}", other),
    }
    let stored = match request.process(Event::Origin(png_of(source(12, 8))), &none) {
        Action::Store { key, result } => {
            assert_eq!(key, "a%2Fb/0,0,6,4/3,/90/default.png");
            assert_eq!(result.content_type, "image/png");
            let decoded = image::load_from_memory(&result.data).unwrap();
            assert_eq!((decoded.width(), decoded.height()), (2, 3));
            result
        }
        other => panic!("unexpected {:?}", other),
    };
    let data = stored.data.clone();
    match request.process(Event::Stored(stored), &none) {
        Action::Return(result) => assert_eq!(result.data, data),
        other => panic!("unexpected {:?}", other),
    }
}

#[test]
fn pipeline_steps_report_failures() {
    let none = SizeLimits::none();
    let request = request("id/full/max/22.5/gray.jpg");
    match request.process(Event::OriginMissing("no such file".to_string()), &none) {
        Action::Fail(e) => assert_eq!(e, IiifError::NotFound("no such file".to_string())),
        other => panic!("unexpected {:?}", other),
    }
    match request.process(Event::StoreFailed("disk full".to_string()), &none) {
        Action::Fail(e) => assert_eq!(e, IiifError::InternalServerError("disk full".to_string())),
        other => panic!("unexpected {:?}", other),
    }
    match request.process(Event::Origin(vec![1, 2, 3, 4]), &none) {
        Action::Fail(IiifError::InternalServerError(message)) => assert!(!message.is_empty()),
        other => panic!("unexpected {:?}", other),
    }
    match request.process(Event::Origin(png_of(source(12, 8))), &none) {
        Action::Turn { image, degrees } => {
            assert_eq!((image.width(), image.height()), (12, 8));
            assert_eq!(degrees.to_string(), "22.5");
        }
        other => panic!("unexpected {:?}", other),
    }
    match request.process(Event::Turned(source(14, 9)), &none) {
        Action::Store { key, result } => {
            assert_eq!(key, "id/full/max/22.5/gray.jpg");
            assert_eq!(result.content_type, "image/jpeg");
            let decoded = image::load_from_memory(&result.data).unwrap();
            assert_eq!((decoded.width(), decoded.height()), (14, 9));
        }
        other => panic!("unexpected {:?}", other),
    }
    let too_wide = IiifImage::parse_path("id/full/^70000,1/0/default.jpg").unwrap();
    let limits = SizeLimits::none();
    match too_wide.process(Event::Origin(png_of(source(12, 1))), &limits) {
        Action::Fail(IiifError::InternalServerError(_)) => {}
        other => panic!("unexpected {:?}", other),
    }
    let unfinished: Result<ProcessResult, IiifError> =
        IiifImage::parse_path("id/full/max/0/default.jp2").unwrap().finish(source(2, 2));
    assert!(matches!(unfinished, Err(IiifError::NotImplemented(_))));
}
