use i3f::{
    Action, Decimal, Event, Format, IiifError, IiifImage, ProcessResult, RasterImage, Rotated,
    Rotation, SizeLimits,
};
use imageproc::geometric_transformations::{rotate_about_center, Interpolation};
use std::cell::RefCell;
use std::collections::HashMap;
use url::Url;

struct Memory {
    origins: HashMap<String, Vec<u8>>,
    derivatives: RefCell<HashMap<String, Vec<u8>>>,
    lookups: RefCell<u32>,
    stores: RefCell<u32>,
}

fn turn(image: RasterImage, angle: &Decimal) -> RasterImage {
    let (width, height) = (image.width(), image.height());
    let mut degrees = angle.mantissa() as f64 / 10f64.powi(angle.scale() as i32);
    if angle.is_negative() {
        degrees = -degrees;
    }
    let theta = (degrees as f32).to_radians();
    let (sin, cos) = (theta.sin().abs(), theta.cos().abs());
    let new_width = ((width as f32 * cos + height as f32 * sin).round() as u32).max(width);
    let new_height = ((width as f32 * sin + height as f32 * cos).round() as u32).max(height);
    let centred = image.centred_on(new_width, new_height).unwrap();
    let canvas =
        image::RgbaImage::from_raw(new_width, new_height, centred.into_pixels()).unwrap();
    let turned =
        rotate_about_center(&canvas, theta, Interpolation::Bicubic, image::Rgba([0, 0, 0, 0]));
    let (w, h) = (turned.width(), turned.height());
    RasterImage::new(w, h, turned.into_raw()).unwrap()
}

fn process(request: &IiifImage, memory: &Memory) -> Result<ProcessResult, IiifError> {
    let limits = SizeLimits::none();
    let mut event = Event::Start;
    loop {
        event = match request.process(event, &limits) {
            Action::Lookup { key } => {
                *memory.lookups.borrow_mut() += 1;
                match memory.derivatives.borrow().get(&key) {
                    Some(bytes) => Event::Cached(bytes.clone()),
                    None => Event::CacheMiss,
                }
            }
            Action::Fetch { identifier } => match memory.origins.get(&identifier) {
                Some(bytes) => Event::Origin(bytes.clone()),
                None => Event::OriginMissing(format!("{} does not exist", identifier)),
            },
            Action::Turn { image, degrees } => Event::Turned(turn(image, &degrees)),
            Action::Store { key, result } => {
                *memory.stores.borrow_mut() += 1;
                memory.derivatives.borrow_mut().insert(key, result.data.clone());
                Event::Stored(result)
            }
            Action::Return(result) => return Ok(result),
            Action::Fail(e) => return Err(e),
        };
    }
}

fn demo() -> RasterImage {
    let mut pixels = Vec::new();
    for y in 0..200u32 {
        for x in 0..300u32 {
            pixels.extend_from_slice(&[(x * 255 / 299) as u8, (y * 255 / 199) as u8, 90, 255]);
        }
    }
    RasterImage::new(300, 200, pixels).unwrap()
}

fn memory() -> Memory {
    let mut origins = HashMap::new();
    origins.insert("demo.jpg".to_string(), Format::Jpg.process(demo()).unwrap());
    Memory {
        origins,
        derivatives: RefCell::new(HashMap::new()),
        lookups: RefCell::new(0),
        stores: RefCell::new(0),
    }
}

#[test]
fn test_process() {
    let storage = memory();
    let cases = vec![
        ("/square/150,/15/color.png", "image/png", 184, 184),
        ("/full/max/0/default.jpg", "image/jpeg", 300, 200),
    ];
    for case in cases {
        let url_str = format!("https://example.org/image-service/demo.jpg{}", case.0);
        let url_data = Url::parse(&url_str).unwrap();
        let image = IiifImage::try_from(url_data).unwrap();
        let result = process(&image, &storage).unwrap();
        assert_eq!(result.content_type, case.1);

        let image = image::load_from_memory(&result.data).unwrap();
        assert_eq!(image.width(), case.2);
        assert_eq!(image.height(), case.3);
    }
}

#[test]
fn host_finds_stored_derivatives() {
    let storage = memory();
    let request = IiifImage::parse_path("demo.jpg/0,0,30,20/15,/180/gray.png").unwrap();
    let first = process(&request, &storage).unwrap();
    assert_eq!((*storage.lookups.borrow(), *storage.stores.borrow()), (1, 1));
    assert_eq!(
        storage.derivatives.borrow().get("demo.jpg/0,0,30,20/15,/180/gray.png"),
        Some(&first.data)
    );
    let second = process(&request, &storage).unwrap();
    assert_eq!((*storage.lookups.borrow(), *storage.stores.borrow()), (2, 1));
    assert_eq!(second.data, first.data);
    assert_eq!(second.content_type, "image/png");

    let other = IiifImage::parse_path("demo.jpg/0,0,30,20/15,/180/bitonal.png").unwrap();
    process(&other, &storage).unwrap();
    assert_eq!(storage.derivatives.borrow().len(), 2);
}

#[test]
fn host_reports_missing_sources_and_bad_requests() {
    let storage = memory();
    let request = IiifImage::parse_path("other.jpg/full/max/0/default.jpg").unwrap();
    assert_eq!(
        process(&request, &storage).unwrap_err(),
        IiifError::NotFound("other.jpg does not exist".to_string())
    );
    let request = IiifImage::parse_path("demo.jpg/300,0,5,5/max/0/default.jpg").unwrap();
    assert_eq!(
        process(&request, &storage).unwrap_err(),
        IiifError::BadRequest("X or Y is out of bounds: 300,0,5,5".to_string())
    );
    let request = IiifImage::parse_path("demo.jpg/full/max/361/default.jpg").unwrap();
    assert_eq!(
        process(&request, &storage).unwrap_err(),
        IiifError::BadRequest("Rotation angle is out of range".to_string())
    );
    assert!(storage.derivatives.borrow().is_empty());
}

#[test]
fn host_turns_by_free_angles_on_a_larger_canvas() {
    let rotation = Rotation::from_str("22.5").unwrap();
    match rotation.process(demo()).unwrap() {
        Rotated::Pending { image, degrees } => {
            let turned = turn(image, &degrees);
            assert_eq!((turned.width(), turned.height()), (354, 300));
            assert!(turned.width() > 300 && turned.height() > 200);
            assert_eq!(&turned.pixels()[0..4], &[0, 0, 0, 0]);
        }
        Rotated::Done(_) => panic!("22.5 degrees is no multiple of 90"),
    }
}
