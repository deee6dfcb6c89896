use photoqt::errors::DocumentError;
use photoqt::pdf::{OverlayRect, overlay_fragment, overlay_photo};

fn rect() -> OverlayRect {
    OverlayRect { x: 215, y: 380, width: 360, height: 220 }
}

/// A one-page document whose page has a single-reference `Contents`
/// entry holding `content` and an empty direct `Resources` dictionary.
/// Returns the document with the page id and the content stream id.
fn template_doc(content: &[u8]) -> (lopdf::Document, (u32, u16), (u32, u16)) {
    let mut doc = lopdf::Document::with_version("1.5");
    let content_id =
        doc.add_object(lopdf::Stream::new(lopdf::Dictionary::new(), content.to_vec()));
    let pages_id = doc.new_object_id();
    let mut page = lopdf::Dictionary::new();
    page.set("Type", lopdf::Object::Name(b"Page".to_vec()));
    page.set("Parent", lopdf::Object::Reference(pages_id));
    page.set(
        "MediaBox",
        lopdf::Object::Array(vec![
            lopdf::Object::Integer(0),
            lopdf::Object::Integer(0),
            lopdf::Object::Integer(612),
            lopdf::Object::Integer(792),
        ]),
    );
    page.set("Contents", lopdf::Object::Reference(content_id));
    page.set("Resources", lopdf::Object::Dictionary(lopdf::Dictionary::new()));
    let page_id = doc.add_object(lopdf::Object::Dictionary(page));
    let mut pages = lopdf::Dictionary::new();
    pages.set("Type", lopdf::Object::Name(b"Pages".to_vec()));
    pages.set("Kids", lopdf::Object::Array(vec![lopdf::Object::Reference(page_id)]));
    pages.set("Count", lopdf::Object::Integer(1));
    doc.set_object(pages_id, lopdf::Object::Dictionary(pages));
    let mut catalog = lopdf::Dictionary::new();
    catalog.set("Type", lopdf::Object::Name(b"Catalog".to_vec()));
    catalog.set("Pages", lopdf::Object::Reference(pages_id));
    let catalog_id = doc.add_object(lopdf::Object::Dictionary(catalog));
    doc.trailer.set("Root", lopdf::Object::Reference(catalog_id));
    (doc, page_id, content_id)
}

#[test]
fn fragment_encodes_the_rectangle() {
    let fragment = overlay_fragment(&rect());
    assert_eq!(fragment, b"q\n360 0 0 220 215 380 cm\n/Im1 Do\nQ\n".to_vec());
}

#[test]
fn fragment_encodes_negative_coordinates() {
    let fragment = overlay_fragment(&OverlayRect { x: -5, y: 0, width: 10, height: 7 });
    assert_eq!(fragment, b"q\n10 0 0 7 -5 0 cm\n/Im1 Do\nQ\n".to_vec());
}

#[test]
fn single_reference_contents_becomes_array_of_two() {
    let (mut doc, page_id, content_id) = template_doc(b"BT ET");
    let ids = overlay_photo(&mut doc, 2, 2, vec![10, 20, 30, 40], &rect()).unwrap();
    assert_eq!(ids.page, page_id);

    let page = doc.get_dictionary(page_id).unwrap();
    let contents = page.get(b"Contents").unwrap();
    match contents {
        lopdf::Object::Array(members) => {
            assert_eq!(members.len(), 2);
            assert_eq!(members[0], lopdf::Object::Reference(content_id));
            assert_eq!(members[1], lopdf::Object::Reference(ids.content));
        }
        other => panic!("Contents should be an array, found {:?}", other),
    }

    // The original content stream is byte-identical.
    match doc.get_object(content_id).unwrap() {
        lopdf::Object::Stream(stream) => assert_eq!(stream.content, b"BT ET".to_vec()),
        other => panic!("original content should still be a stream, found {:?}", other),
    }

    // The new content stream holds exactly the drawing fragment.
    match doc.get_object(ids.content).unwrap() {
        lopdf::Object::Stream(stream) => {
            assert_eq!(stream.content, b"q\n360 0 0 220 215 380 cm\n/Im1 Do\nQ\n".to_vec())
        }
        other => panic!("new content should be a stream, found {:?}", other),
    }
}

#[test]
fn image_stream_is_registered_under_im1() {
    let (mut doc, page_id, _) = template_doc(b"BT ET");
    let ids = overlay_photo(&mut doc, 2, 2, vec![10, 20, 30, 40], &rect()).unwrap();

    let page = doc.get_dictionary(page_id).unwrap();
    let resources = page.get(b"Resources").unwrap().as_dict().unwrap();
    let xobjects = resources.get(b"XObject").unwrap().as_dict().unwrap();
    assert_eq!(xobjects.get(b"Im1").unwrap(), &lopdf::Object::Reference(ids.image));

    match doc.get_object(ids.image).unwrap() {
        lopdf::Object::Stream(stream) => {
            assert_eq!(stream.dict.get(b"Width").unwrap(), &lopdf::Object::Integer(2));
            assert_eq!(stream.dict.get(b"Height").unwrap(), &lopdf::Object::Integer(2));
            assert_eq!(
                stream.dict.get(b"BitsPerComponent").unwrap(),
                &lopdf::Object::Integer(8)
            );
            assert_eq!(
                stream.dict.get(b"ColorSpace").unwrap(),
                &lopdf::Object::Name(b"DeviceGray".to_vec())
            );
            assert_eq!(stream.content, vec![10, 20, 30, 40]);
        }
        other => panic!("image should be a stream, found {:?}", other),
    }
}

#[test]
fn array_contents_gains_one_more_reference() {
    let (mut doc, page_id, content_id) = template_doc(b"BT ET");
    {
        let page = doc.get_dictionary_mut(page_id).unwrap();
        page.set(
            "Contents",
            lopdf::Object::Array(vec![lopdf::Object::Reference(content_id)]),
        );
    }
    let ids = overlay_photo(&mut doc, 1, 1, vec![5], &rect()).unwrap();
    let page = doc.get_dictionary(page_id).unwrap();
    match page.get(b"Contents").unwrap() {
        lopdf::Object::Array(members) => {
            assert_eq!(members.len(), 2);
            assert_eq!(members[0], lopdf::Object::Reference(content_id));
            assert_eq!(members[1], lopdf::Object::Reference(ids.content));
        }
        other => panic!("Contents should be an array, found {:?}", other),
    }
}

#[test]
fn unexpected_contents_shape_is_rejected_without_changes() {
    let (mut doc, page_id, _) = template_doc(b"BT ET");
    {
        let page = doc.get_dictionary_mut(page_id).unwrap();
        page.set("Contents", lopdf::Object::Integer(9));
    }
    let before = doc.max_id;
    let outcome = overlay_photo(&mut doc, 1, 1, vec![5], &rect());
    assert_eq!(outcome.unwrap_err(), DocumentError::UnexpectedContents);
    assert_eq!(doc.max_id, before);
    let page = doc.get_dictionary(page_id).unwrap();
    assert_eq!(page.get(b"Contents").unwrap(), &lopdf::Object::Integer(9));
}

#[test]
fn contents_array_with_a_non_reference_member_is_rejected() {
    let (mut doc, page_id, content_id) = template_doc(b"BT ET");
    {
        let page = doc.get_dictionary_mut(page_id).unwrap();
        page.set(
            "Contents",
            lopdf::Object::Array(vec![
                lopdf::Object::Reference(content_id),
                lopdf::Object::Integer(3),
            ]),
        );
    }
    let outcome = overlay_photo(&mut doc, 1, 1, vec![5], &rect());
    assert_eq!(outcome.unwrap_err(), DocumentError::UnexpectedContents);
}

#[test]
fn document_without_pages_is_rejected() {
    let mut doc = lopdf::Document::with_version("1.5");
    let mut pages = lopdf::Dictionary::new();
    pages.set("Type", lopdf::Object::Name(b"Pages".to_vec()));
    pages.set("Kids", lopdf::Object::Array(Vec::new()));
    pages.set("Count", lopdf::Object::Integer(0));
    let pages_id = doc.add_object(lopdf::Object::Dictionary(pages));
    let mut catalog = lopdf::Dictionary::new();
    catalog.set("Type", lopdf::Object::Name(b"Catalog".to_vec()));
    catalog.set("Pages", lopdf::Object::Reference(pages_id));
    let catalog_id = doc.add_object(lopdf::Object::Dictionary(catalog));
    doc.trailer.set("Root", lopdf::Object::Reference(catalog_id));

    let before = doc.max_id;
    let outcome = overlay_photo(&mut doc, 1, 1, vec![5], &rect());
    assert_eq!(outcome.unwrap_err(), DocumentError::NoPages);
    assert_eq!(doc.max_id, before);
}

#[test]
fn exhausted_object_numbers_are_rejected() {
    let (mut doc, _, _) = template_doc(b"BT ET");
    doc.max_id = u32::MAX - 3;
    let before = doc.max_id;
    let outcome = overlay_photo(&mut doc, 1, 1, vec![5], &rect());
    assert_eq!(outcome.unwrap_err(), DocumentError::TooManyObjects);
    assert_eq!(doc.max_id, before);
}

#[test]
fn just_enough_object_numbers_are_accepted() {
    let (mut doc, _, _) = template_doc(b"BT ET");
    doc.max_id = u32::MAX - 4;
    let ids = overlay_photo(&mut doc, 1, 1, vec![5], &rect()).unwrap();
    assert_eq!(ids.image, (u32::MAX - 3, 0));
    assert_eq!(ids.content, (u32::MAX - 2, 0));
}

#[test]
fn page_without_contents_is_rejected() {
    let (mut doc, page_id, _) = template_doc(b"BT ET");
    {
        let page = doc.get_dictionary_mut(page_id).unwrap();
        page.remove(b"Contents");
    }
    let outcome = overlay_photo(&mut doc, 1, 1, vec![5], &rect());
    assert_eq!(outcome.unwrap_err(), DocumentError::MissingContents);
}

#[test]
fn page_without_resources_is_rejected() {
    let (mut doc, page_id, _) = template_doc(b"BT ET");
    {
        let page = doc.get_dictionary_mut(page_id).unwrap();
        page.remove(b"Resources");
    }
    let outcome = overlay_photo(&mut doc, 1, 1, vec![5], &rect());
    assert_eq!(outcome.unwrap_err(), DocumentError::BadResources);
}

#[test]
fn non_dictionary_resources_are_rejected() {
    let (mut doc, page_id, _) = template_doc(b"BT ET");
    {
        let page = doc.get_dictionary_mut(page_id).unwrap();
        page.set("Resources", lopdf::Object::Integer(4));
    }
    let outcome = overlay_photo(&mut doc, 1, 1, vec![5], &rect());
    assert_eq!(outcome.unwrap_err(), DocumentError::BadResources);
}
