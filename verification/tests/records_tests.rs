use i3f::image_storage::{LocalStorage, Storage};
use i3f::info::{ImageInfo, InfoType, Profile, Protocol, SizeType, TileType};
use i3f::presentation::{
    annotation_page_type, annotation_type, collection_type, Annotation, AnnotationPage, Collection,
    Context, Metadata, Resource, IIIF_IMAGE_3_CONTEXT, IIIF_PRESENTATION_3_CONTEXT,
};
use i3f::{IiifError, IiifImage, ProcessResult};
use std::path::PathBuf;

#[test]
fn test_process_result() {
    let result = ProcessResult::new("image/jpeg".to_string(), vec![1, 2, 3]);
    assert_eq!(result.content_type, "image/jpeg");
    assert_eq!(result.data, vec![1, 2, 3]);
}

#[test]
fn test_get_local_file_path() {
    let storage = LocalStorage::new("./fixtures");
    assert_eq!(
        storage.get_file_path("image3.png"),
        PathBuf::from("./fixtures/image3.png"),
    );
}

#[test]
fn test_annotation_page_default() {
    let annotation_page = AnnotationPage::default();
    assert_eq!(annotation_page.id, "");
    assert_eq!(annotation_page.kind, "AnnotationPage");
}

#[test]
fn test_annotation_default() {
    let annotation = Annotation::default();
    assert_eq!(annotation.id, "");
    assert_eq!(annotation.kind, "Annotation");
}

#[test]
fn context_test_context_default() {
    let context = Context::presentation_default();
    assert_eq!(
        context,
        Context::Single(IIIF_PRESENTATION_3_CONTEXT.to_string())
    );

    let context = Context::image_default();
    assert_eq!(context, Context::Single(IIIF_IMAGE_3_CONTEXT.to_string()));

    let context = Context::new_presentation_list(&[IIIF_PRESENTATION_3_CONTEXT.to_string()]);
    assert_eq!(
        context,
        Context::List(vec![IIIF_PRESENTATION_3_CONTEXT.to_string()])
    );

    let context = Context::new_image_list(&[IIIF_IMAGE_3_CONTEXT.to_string()]);
    assert_eq!(
        context,
        Context::List(vec![IIIF_IMAGE_3_CONTEXT.to_string()])
    );
}

#[test]
fn info_test_context_default() {
    let mut info = ImageInfo::default();
    println!("{:?}", info);

    info.context = i3f::info::Context::new_list(&[
        "http://iiif.io/api/image/2/context.json".to_string()
    ]);
    println!("{:?}", info);
    assert_eq!(
        info.context,
        i3f::info::Context::List(vec![
            "http://iiif.io/api/image/2/context.json".to_string(),
            "http://iiif.io/api/image/3/context.json".to_string(),
        ])
    );
}

#[test]
fn context_lists_end_with_the_default() {
    let list = |items: &[&str]| items.iter().map(|s| s.to_string()).collect::<Vec<String>>();
    assert_eq!(
        Context::new_list(&list(&["a", "b"]), "z"),
        Context::List(list(&["a", "b", "z"]))
    );
    assert_eq!(
        Context::new_list(&list(&["a", "z", "b", "z"]), "z"),
        Context::List(list(&["a", "b", "z", "z"]))
    );
    assert_eq!(Context::new_list(&[], "z"), Context::List(list(&["z"])));
    assert_eq!(
        i3f::info::Context::new_list(&list(&[
            "http://iiif.io/api/image/2/context.json",
            i3f::info::IIIF_IMAGE_3_CONTEXT,
            "x"
        ])),
        i3f::info::Context::List(list(&[
            "http://iiif.io/api/image/2/context.json",
            "x",
            i3f::info::IIIF_IMAGE_3_CONTEXT
        ]))
    );
    assert_eq!(
        i3f::info::Context::new_single(),
        i3f::info::Context::Single("http://iiif.io/api/image/3/context.json".to_string())
    );
    assert_eq!(i3f::info::Context::default(), i3f::info::Context::new_single());
}

#[test]
fn info_defaults() {
    let info = ImageInfo::default();
    assert_eq!(info.context, i3f::info::Context::new_single());
    assert_eq!(info.id, "");
    assert_eq!(info.kind.as_str(), "ImageService3");
    assert_eq!(info.protocol.as_str(), "http://iiif.io/api/image");
    assert_eq!(info.profile, Profile::Level0);
    assert_eq!((info.width, info.height), (0, 0));
    assert!(info.max_width.is_none() && info.max_height.is_none() && info.max_area.is_none());
    assert!(info.sizes.is_none() && info.extra_formats.is_none());
    assert!(info.preferred_formats.is_none() && info.rights.is_none());
    assert!(info.extra_qualities.is_none() && info.extra_features.is_none());
    assert!(info.part_of.is_none() && info.see_also.is_none() && info.service.is_none());
    assert_eq!(InfoType::default().as_str(), "ImageService3");
    assert_eq!(Protocol::default().as_str(), "http://iiif.io/api/image");
    assert_eq!(Profile::default(), Profile::Level0);
    assert_eq!(SizeType::default(), SizeType::Size);
    assert_eq!(TileType::default(), TileType::Tile);
    let mut info = ImageInfo::default();
    assert_eq!(info.limits(), i3f::SizeLimits::none());
    info.max_width = Some(1000);
    info.max_area = Some(4_000_000);
    assert_eq!(
        info.limits(),
        i3f::SizeLimits { max_width: Some(1000), max_height: None, max_area: Some(4_000_000) }
    );
}

#[test]
fn presentation_defaults() {
    assert_eq!(annotation_page_type(), "AnnotationPage");
    assert_eq!(annotation_type(), "Annotation");
    assert_eq!(collection_type(), "Collection");
    let resource = Resource::default();
    assert_eq!(resource.id, "");
    assert_eq!(resource.kind, "");
    assert!(resource.label.is_none() && resource.format.is_none() && resource.profile.is_none());
    let metadata = Metadata::default();
    assert!(metadata.label.is_empty() && metadata.value.is_empty());
    let annotation = Annotation::default();
    assert_eq!(annotation.motivation, "");
    assert_eq!(annotation.target, "");
    assert_eq!(annotation.body, Resource::default());
    assert!(annotation.label.is_none());
    assert!(AnnotationPage::default().items.is_empty());
    let collection = Collection::default();
    assert_eq!(collection.context, Context::presentation_default());
    assert_eq!(collection.id, "");
    assert_eq!(collection.kind, "Collection");
    assert!(collection.label.is_empty() && collection.items.is_empty());
    assert!(collection.summary.is_none() && collection.behavior.is_none());
}

#[test]
fn storage_paths() {
    let storage = LocalStorage::new("/data/images");
    assert_eq!(storage.base_path(), "/data/images");
    assert_eq!(storage.get_file_path("a/b.png"), PathBuf::from("/data/images/a/b.png"));
    assert_eq!(storage.get_file_path("/etc/x"), PathBuf::from("/etc/x"));
    let storage = i3f::storage::LocalStorage::new("./fixtures", "./fixtures/out");
    assert_eq!(storage.origin_path("demo.jpg"), PathBuf::from("./fixtures/demo.jpg"));
    let request = IiifImage::parse_path("demo.jpg/full/max/0/default.jpg").unwrap();
    assert_eq!(
        storage.derivative_path(&request),
        PathBuf::from("./fixtures/out/demo.jpg/full/max/0/default.jpg")
    );
}

#[test]
fn error_messages() {
    assert_eq!(
        IiifError::InvalidIiifURL("x".to_string()).to_string(),
        "Invalid IIIF image URL: x"
    );
    assert_eq!(
        IiifError::ImageOpenFailed("y".to_string()).message(),
        "Image open failed: y"
    );
    for (error, text) in [
        (IiifError::BadRequest("a".to_string()), "a"),
        (IiifError::Unauthorized("b".to_string()), "b"),
        (IiifError::Forbidden("c".to_string()), "c"),
        (IiifError::NotFound("d".to_string()), "d"),
        (IiifError::InternalServerError("e".to_string()), "e"),
        (IiifError::NotImplemented("f".to_string()), "f"),
        (IiifError::ServiceUnavailable("g".to_string()), "g"),
    ] {
        assert_eq!(error.message(), text);
    }
    assert_eq!(
        IiifError::bad_request("Invalid x: ", "y"),
        IiifError::BadRequest("Invalid x: y".to_string())
    );
    assert_eq!(
        IiifError::invalid_url("Invalid x: ", "y"),
        IiifError::InvalidIiifURL("Invalid x: y".to_string())
    );
}
