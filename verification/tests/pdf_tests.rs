use i3f::pdf::{assemble, write_image_document};
use i3f::{Format, RasterImage};

fn find(haystack: &[u8], needle: &[u8]) -> Option<usize> {
    haystack.windows(needle.len()).position(|w| w == needle)
}

#[test]
fn pdf_assemble_writes_offsets_of_objects() {
    let objects =
        vec![b"1 0 obj\n<< >>\nendobj\n".to_vec(), b"2 0 obj\n[1 0 R]\nendobj\n".to_vec()];
    let bytes = assemble(&objects).unwrap();
    let expected = "%PDF-1.5\n1 0 obj\n<< >>\nendobj\n2 0 obj\n[1 0 R]\nendobj\n\
xref\n0 3\n0000000000 65535 f \n0000000009 00000 n \n0000000030 00000 n \n\
trailer\n<< /Size 3 /Root 2 0 R >>\nstartxref\n53\n%%EOF\n";
    assert_eq!(String::from_utf8(bytes).unwrap(), expected);
}

#[test]
fn pdf_assemble_without_objects() {
    let bytes = assemble(&Vec::new()).unwrap();
    let expected = "%PDF-1.5\nxref\n0 1\n0000000000 65535 f \n\
trailer\n<< /Size 1 /Root 0 0 R >>\nstartxref\n9\n%%EOF\n";
    assert_eq!(String::from_utf8(bytes).unwrap(), expected);
}

#[test]
fn pdf_image_document_has_the_stated_layout() {
    let jpeg = vec![0xffu8, 0xd8, 0xff, 0xd9];
    let bytes = write_image_document(300, 200, &jpeg).unwrap();
    let head: &[u8] = b"%PDF-1.5\n1 0 obj\n<< /Type /XObject /Subtype /Image /Width 300 \
/Height 200 /ColorSpace /DeviceRGB /BitsPerComponent 8 /Filter /DCTDecode /Length 4 >>\n\
stream\n\xff\xd8\xff\xd9\nendstream\nendobj\n2 0 obj\n<< /Length 30 >>\nstream\n\
q\n300 0 0 200 0 0 cm\n/Im1 Do\nQ\nendstream\nendobj\n";
    assert!(bytes.starts_with(head));
    assert!(find(&bytes, b"/MediaBox [0 0 300 200]").is_some());
    assert!(find(&bytes, b"<< /Size 6 /Root 5 0 R >>").is_some());
    let xref = find(&bytes, b"xref\n0 6\n").unwrap();
    let tail = format!("startxref\n{}\n%%EOF\n", xref);
    assert!(bytes.ends_with(tail.as_bytes()));
    for id in 1..=5usize {
        let entry = xref + 9 + 20 * id;
        let digits = std::str::from_utf8(&bytes[entry..entry + 10]).unwrap();
        let offset: usize = digits.parse().unwrap();
        let head = format!("{} 0 obj\n", id);
        assert!(bytes[offset..].starts_with(head.as_bytes()));
    }
}

#[test]
fn pdf_every_reference_resolves() {
    let source = RasterImage::new(6, 4, vec![200u8; 96]).unwrap();
    let bytes = Format::Pdf.process(source).unwrap();
    let doc = lopdf::Document::load_mem(&bytes).unwrap();
    assert_eq!(doc.version, "1.5");
    assert_eq!(doc.objects.len(), 5);
    assert_eq!(doc.trailer.get(b"Size").unwrap().as_i64().unwrap(), 6);
    let root = doc.trailer.get(b"Root").unwrap().as_reference().unwrap();
    let catalog = doc.get_dictionary(root).unwrap();
    let pages_id = catalog.get(b"Pages").unwrap().as_reference().unwrap();
    let pages = doc.get_dictionary(pages_id).unwrap();
    assert_eq!(pages.get(b"Count").unwrap().as_i64().unwrap(), 1);
    let kids = pages.get(b"Kids").unwrap().as_array().unwrap();
    assert_eq!(kids.len(), 1);
    let page_id = kids[0].as_reference().unwrap();
    let page = doc.get_dictionary(page_id).unwrap();
    assert_eq!(page.get(b"Parent").unwrap().as_reference().unwrap(), pages_id);
    let contents = page.get(b"Contents").unwrap().as_reference().unwrap();
    let stream = doc.get_object(contents).unwrap().as_stream().unwrap();
    assert_eq!(stream.content, b"q\n6 0 0 4 0 0 cm\n/Im1 Do\nQ".to_vec());
    let resources = page.get(b"Resources").unwrap().as_dict().unwrap();
    let xobjects = resources.get(b"XObject").unwrap().as_dict().unwrap();
    let image_id = xobjects.get(b"Im1").unwrap().as_reference().unwrap();
    let image = doc.get_object(image_id).unwrap().as_stream().unwrap();
    assert_eq!(image.dict.get(b"Width").unwrap().as_i64().unwrap(), 6);
    assert_eq!(image.dict.get(b"Height").unwrap().as_i64().unwrap(), 4);
    let decoded = image::load_from_memory(&image.content).unwrap();
    assert_eq!((decoded.width(), decoded.height()), (6, 4));
    assert_eq!(doc.get_pages().len(), 1);
}
