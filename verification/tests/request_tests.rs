use i3f::request::{url_decode, url_encode};
use i3f::{Decimal, Format, IiifError, IiifImage, Quality, Region, Rotation, Size};
use url::Url;

fn dec(text: &str) -> Decimal {
    Decimal::from_str(text).unwrap()
}

#[test]
fn test_url_error() {
    let url = Url::parse("https://example.org/image-service/demo.jpg/full").unwrap();
    let result = IiifImage::try_from(url);
    assert!(result.is_err());
    assert_eq!(
        result.err().unwrap(),
        IiifError::InvalidIiifURL("URL does not have enough segments".to_string())
    );

    let url =
        Url::parse("https://example.org/image-service/demo.jpg/full/max/0/default").unwrap();
    let result = IiifImage::try_from(url);
    assert!(result.is_err());
    assert_eq!(
        result.err().unwrap(),
        IiifError::InvalidIiifURL("Invalid quality.format segment: default".to_string())
    );

    let url = Url::parse("https://example.org/image-service//full/max/0/default.jpg").unwrap();
    let result = IiifImage::try_from(url);
    assert!(result.is_err());
    assert_eq!(
        result.err().unwrap(),
        IiifError::InvalidIiifURL("Identifier cannot be empty".to_string())
    );
}

#[test]
fn test_default_image() {
    let url_data =
        Url::parse("https://example.org/image-service/abcd1234/full/max/0/default.jpg").unwrap();
    let iiif_image = IiifImage::try_from(url_data).unwrap();
    assert_eq!(iiif_image.identifier, "abcd1234");
    assert_eq!(iiif_image.region, Region::Full);
    assert_eq!(iiif_image.size, Size::Max);
    assert_eq!(iiif_image.rotation, Rotation::Degrees(dec("0.0")));
    assert_eq!(iiif_image.quality, Quality::Default);
    assert_eq!(iiif_image.format, Format::Jpg);

    let url_data1 = Url::parse(
        "https://example.org/image-service/data%2Faaa.jpg/full/max/0/default.jpg?a=1",
    )
    .unwrap();
    let iiif_image1 = IiifImage::try_from(url_data1).unwrap();
    assert_eq!(iiif_image1.identifier, "data/aaa.jpg");

    let url_data2 = Url::parse(
        "https://example.org/image-service/data%2Faaa.jpg/full1/max/0/default.jpg?a=1",
    )
    .unwrap();
    let result = IiifImage::try_from(url_data2);
    assert!(result.is_err());
}

#[test]
fn test_url_parse() {
    let cases = vec![
        (
            "id1/full/max/0/default.jpg",
            "id1",
            Region::Full,
            Size::Max,
            Rotation::Degrees(dec("0.0")),
            Quality::Default,
            Format::Jpg,
        ),
        (
            "id1/0,10,100,200/pct:50/90/default.png",
            "id1",
            Region::Rect(0, 10, 100, 200),
            Size::Pct { n: 50 },
            Rotation::Degrees(dec("90.0")),
            Quality::Default,
            Format::Png,
        ),
        (
            "id1/pct:10,10,80,80/50,/22.5/color.jpg",
            "id1",
            Region::Pct(dec("10.0"), dec("10.0"), dec("80.0"), dec("80.0")),
            Size::W { w: 50 },
            Rotation::Degrees(dec("22.5")),
            Quality::Color,
            Format::Jpg,
        ),
        (
            "bb157hs6068/full/max/270/gray.jpg",
            "bb157hs6068",
            Region::Full,
            Size::Max,
            Rotation::Degrees(dec("270.0")),
            Quality::Gray,
            Format::Jpg,
        ),
        (
            "ark:%2F12025%2F654xz321/full/max/0/default.jpg",
            "ark:/12025/654xz321",
            Region::Full,
            Size::Max,
            Rotation::Degrees(dec("0.0")),
            Quality::Default,
            Format::Jpg,
        ),
        (
            "urn:foo:a123,456/full/max/0/default.jpg",
            "urn:foo:a123,456",
            Region::Full,
            Size::Max,
            Rotation::Degrees(dec("0.0")),
            Quality::Default,
            Format::Jpg,
        ),
        (
            "urn:sici:1046-8188(199501)13:1%253C69:FTTHBI%253E2.0.TX;2-4/full/max/0/default.jpg",
            "urn:sici:1046-8188(199501)13:1%3C69:FTTHBI%3E2.0.TX;2-4",
            Region::Full,
            Size::Max,
            Rotation::Degrees(dec("0.0")),
            Quality::Default,
            Format::Jpg,
        ),
        (
            "http:%2F%2Fexample.com%2F%3F54%23a/full/max/0/default.jpg",
            "http://example.com/?54#a",
            Region::Full,
            Size::Max,
            Rotation::Degrees(dec("0.0")),
            Quality::Default,
            Format::Jpg,
        ),
    ];
    for case in cases {
        let url = format!("https://example.org/{}", case.0);
        let url_data = Url::parse(&url).unwrap();
        let iiif_image = IiifImage::try_from(url_data).unwrap();
        assert_eq!(iiif_image.identifier, case.1);
        assert_eq!(iiif_image.region, case.2);
        assert_eq!(iiif_image.size, case.3);
        assert_eq!(iiif_image.rotation, case.4);
        assert_eq!(iiif_image.quality, case.5);
        assert_eq!(iiif_image.format, case.6);
    }
}

#[test]
fn test_iiif_image() {
    let url =
        Url::parse("https://example.org/image-service/demo.jpg/full/max/0/default.jpg").unwrap();
    let image = IiifImage::try_from(url).unwrap();
    assert_eq!(image.to_string(), "demo.jpg/full/max/0/default.jpg");
}

#[test]
fn request_percent_coding() {
    assert_eq!(url_encode("data/aaa.jpg"), "data%2Faaa.jpg");
    assert_eq!(url_encode("AZaz09-._~"), "AZaz09-._~");
    assert_eq!(url_encode("a b%é"), "a%20b%25%C3%A9");
    assert_eq!(url_decode("data%2Faaa.jpg").unwrap(), "data/aaa.jpg");
    assert_eq!(url_decode("data%2faaa.jpg").unwrap(), "data/aaa.jpg");
    assert_eq!(url_decode("a+b").unwrap(), "a+b");
    assert_eq!(url_decode("100%").unwrap(), "100%");
    assert_eq!(url_decode("%4").unwrap(), "%4");
    assert_eq!(url_decode("%4x%zz%%41").unwrap(), "%4x%zz%A");
    assert_eq!(url_decode("%C3%A9").unwrap(), "é");
    assert_eq!(
        url_decode("%ff").unwrap_err(),
        IiifError::BadRequest("Invalid identifier: %ff".to_string())
    );
    for text in ["", "plain", "a/b c", "ü%2F", "%", "%%", "100%25"] {
        assert_eq!(url_decode(&url_encode(text)).unwrap(), text);
    }
}

#[test]
fn request_reports_the_first_fault() {
    let parse = |path: &str| IiifImage::parse_path(path).unwrap_err();
    assert_eq!(
        parse("a/b/c/d"),
        IiifError::InvalidIiifURL("URL does not have enough segments".to_string())
    );
    assert_eq!(
        parse("%ff/fulll/maxx/x/y"),
        IiifError::BadRequest("Invalid identifier: %ff".to_string())
    );
    assert_eq!(
        parse("/fulll/maxx/x/y"),
        IiifError::InvalidIiifURL("Identifier cannot be empty".to_string())
    );
    assert_eq!(
        parse("id/fulll/maxx/x/y"),
        IiifError::InvalidIiifURL("Invalid region format: fulll".to_string())
    );
    assert_eq!(
        parse("id/full/maxx/x/y"),
        IiifError::InvalidIiifURL("Invalid size format: maxx".to_string())
    );
    assert_eq!(
        parse("id/full/max/x/y"),
        IiifError::InvalidIiifURL("Invalid rotation format: x".to_string())
    );
    assert_eq!(
        parse("id/full/max/0/y"),
        IiifError::InvalidIiifURL("Invalid quality.format segment: y".to_string())
    );
    assert_eq!(
        parse("id/full/max/0/a.b.c"),
        IiifError::InvalidIiifURL("Invalid quality.format segment: a.b.c".to_string())
    );
    assert_eq!(
        parse("id/full/max/0/colour.jpg"),
        IiifError::InvalidIiifURL("Invalid quality format: colour".to_string())
    );
    assert_eq!(
        parse("id/full/max/0/color.jpeg"),
        IiifError::InvalidIiifURL("Invalid format format: jpeg".to_string())
    );
}

#[test]
fn request_helpers() {
    assert_eq!(IiifImage::validate_identifier("abc").unwrap(), "abc");
    assert_eq!(
        IiifImage::validate_identifier("").unwrap_err(),
        IiifError::InvalidIiifURL("Identifier cannot be empty".to_string())
    );
    assert_eq!(
        IiifImage::parse_quality_format("gray.png").unwrap(),
        ("gray".to_string(), "png".to_string())
    );
    assert_eq!(
        IiifImage::parse_quality_format(".").unwrap(),
        ("".to_string(), "".to_string())
    );
    assert!(IiifImage::parse_quality_format("gray").is_err());
    assert_eq!(IiifImage::parse_param(Ok::<u8, IiifError>(3), "x", "size").unwrap(), 3);
    assert_eq!(
        IiifImage::parse_param(
            Err::<u8, IiifError>(IiifError::BadRequest("inner".to_string())),
            "x",
            "size"
        )
        .unwrap_err(),
        IiifError::InvalidIiifURL("Invalid size format: x".to_string())
    );
}

#[test]
fn request_parses_paths_and_segments() {
    let image =
        IiifImage::parse_path("/prefix/ark:%2F12025/square/!10,20/!90/bitonal.webp").unwrap();
    assert_eq!(image.identifier, "ark:/12025");
    assert_eq!(image.region, Region::Square);
    assert_eq!(image.size, Size::LWH { w: 10, h: 20 });
    assert_eq!(image.rotation, Rotation::MirrorDegrees(dec("90")));
    assert_eq!(image.quality, Quality::Bitonal);
    assert_eq!(image.format, Format::Webp);
    assert_eq!(image.to_string(), "ark%3A%2F12025/square/!10,20/!90/bitonal.webp");

    let segments: Vec<String> =
        ["x", "id", "full", "max", "0", "default.jpg"].iter().map(|s| s.to_string()).collect();
    let image = IiifImage::from_segments(&segments).unwrap();
    assert_eq!(image.identifier, "id");
    let image = IiifImage::from_parts("a%20b", "FULL", "^MAX", "0.50", "Gray.TIF").unwrap();
    assert_eq!(image.to_string(), "a%20b/full/^max/0.5/gray.tif");
    assert!(IiifImage::try_from(Url::parse("mailto:a/full/max/0/default.jpg").unwrap()).is_err());
}

#[test]
fn request_canonical_string_round_trips() {
    for path in [
        "demo.jpg/full/max/0/default.jpg",
        "a%2Fb/pct:41.6,7.5,40,70/^!360,360/!22.5/bitonal.pdf",
        "%C3%A9%25/125,15,120,140/,150/270/color.gif",
        "id/square/^pct:150/359.999999999/gray.jp2",
    ] {
        let image = IiifImage::parse_path(path).unwrap();
        assert_eq!(image.to_string(), path);
    }
}

#[test]
fn request_canonical_strings_differ_with_the_quality() {
    let mut texts = Vec::new();
    for quality in ["default", "color", "gray", "bitonal"] {
        let path = format!("demo.jpg/full/max/0/{}.jpg", quality);
        texts.push(IiifImage::parse_path(&path).unwrap().to_string());
    }
    for i in 0..texts.len() {
        for j in 0..texts.len() {
            assert_eq!(texts[i] == texts[j], i == j);
        }
    }
}

#[test]
fn request_canonical_strings_differ_for_requests_no_url_writes() {
    let build = |identifier: &str, size: Size| IiifImage {
        identifier: identifier.to_string(),
        region: Region::Full,
        size,
        rotation: Rotation::Degrees(dec("0")),
        quality: Quality::Default,
        format: Format::Jpg,
    };
    let texts = [
        build("", Size::Pct { n: 150 }).to_string(),
        build("", Size::CPct { n: 150 }).to_string(),
        build("", Size::W { w: 150 }).to_string(),
        build("a", Size::Pct { n: 150 }).to_string(),
        build("/", Size::Pct { n: 150 }).to_string(),
    ];
    assert_eq!(texts[0], "/full/pct:150/0/default.jpg");
    assert_eq!(texts[1], "/full/^pct:150/0/default.jpg");
    assert_eq!(texts[4], "%2F/full/pct:150/0/default.jpg");
    for i in 0..texts.len() {
        for j in 0..texts.len() {
            assert_eq!(texts[i] == texts[j], i == j);
        }
    }
}
