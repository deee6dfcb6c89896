use photoqt::errors::{DocumentError, JobError};
use photoqt::pipeline::{JobOutcome, PdfImageInserter};
use photoqt::printer::{MockPrinter, Printer};

fn template_bytes() -> Vec<u8> {
    let mut doc = lopdf::Document::with_version("1.5");
    let content_id =
        doc.add_object(lopdf::Stream::new(lopdf::Dictionary::new(), b"BT ET".to_vec()));
    let pages_id = doc.new_object_id();
    let mut page = lopdf::Dictionary::new();
    page.set("Type", lopdf::Object::Name(b"Page".to_vec()));
    page.set("Parent", lopdf::Object::Reference(pages_id));
    page.set(
        "MediaBox",
        lopdf::Object::Array(vec![
            lopdf::Object::Integer(0),
            lopdf::Object::Integer(0),
            lopdf::Object::Integer(612),
            lopdf::Object::Integer(792),
        ]),
    );
    page.set("Contents", lopdf::Object::Reference(content_id));
    page.set("Resources", lopdf::Object::Dictionary(lopdf::Dictionary::new()));
    let page_id = doc.add_object(lopdf::Object::Dictionary(page));
    let mut pages = lopdf::Dictionary::new();
    pages.set("Type", lopdf::Object::Name(b"Pages".to_vec()));
    pages.set("Kids", lopdf::Object::Array(vec![lopdf::Object::Reference(page_id)]));
    pages.set("Count", lopdf::Object::Integer(1));
    doc.set_object(pages_id, lopdf::Object::Dictionary(pages));
    let mut catalog = lopdf::Dictionary::new();
    catalog.set("Type", lopdf::Object::Name(b"Catalog".to_vec()));
    catalog.set("Pages", lopdf::Object::Reference(pages_id));
    let catalog_id = doc.add_object(lopdf::Object::Dictionary(catalog));
    doc.trailer.set("Root", lopdf::Object::Reference(catalog_id));
    let mut bytes: Vec<u8> = Vec::new();
    doc.save_to(&mut bytes).unwrap();
    bytes
}

fn photo_bytes(width: u32, height: u32, shade: u8) -> Vec<u8> {
    let img = image::DynamicImage::ImageRgb8(image::RgbImage::from_pixel(
        width,
        height,
        image::Rgb([shade, shade, shade]),
    ));
    let mut bytes: Vec<u8> = Vec::new();
    img.write_to(&mut std::io::Cursor::new(&mut bytes), image::ImageFormat::Png).unwrap();
    bytes
}

fn inserter() -> PdfImageInserter {
    PdfImageInserter::new("Berlin.pdf".to_string(), 215, 380, 360, 220)
}

#[test]
fn two_jobs_submit_sequentially_in_order() {
    let template = template_bytes();
    let photos = vec![photo_bytes(3, 2, 10), photo_bytes(4, 2, 200)];
    let mut printer = MockPrinter::new(true);

    let outcomes = inserter().process_jobs(&template, &photos, &mut printer);

    assert_eq!(outcomes.len(), 2);
    assert_eq!(printer.log.len(), 2);
    match &outcomes[0] {
        JobOutcome::Printed { job_id, document } => {
            assert_eq!(*job_id, 1);
            assert_eq!(document, &printer.log[0]);
        }
        other => panic!("first job should print, found {:?}", other),
    }
    match &outcomes[1] {
        JobOutcome::Printed { job_id, document } => {
            assert_eq!(*job_id, 2);
            assert_eq!(document, &printer.log[1]);
        }
        other => panic!("second job should print, found {:?}", other),
    }
    assert_ne!(printer.log[0], printer.log[1]);
}

#[test]
fn a_failed_job_is_skipped_and_the_worker_continues() {
    let template = template_bytes();
    let photos = vec![photo_bytes(3, 2, 10), vec![1, 2, 3], photo_bytes(4, 2, 200)];
    let mut printer = MockPrinter::new(true);

    let outcomes = inserter().process_jobs(&template, &photos, &mut printer);

    assert_eq!(outcomes.len(), 3);
    assert_eq!(printer.log.len(), 2);
    assert!(matches!(outcomes[0], JobOutcome::Printed { .. }));
    assert!(matches!(outcomes[1], JobOutcome::Skipped { .. }));
    assert!(matches!(outcomes[2], JobOutcome::Printed { .. }));
}

#[test]
fn a_rejected_submission_is_still_logged() {
    let template = template_bytes();
    let photos = vec![photo_bytes(3, 2, 10)];
    let mut printer = MockPrinter::new(false);

    let outcomes = inserter().process_jobs(&template, &photos, &mut printer);

    assert_eq!(outcomes.len(), 1);
    assert_eq!(printer.log.len(), 1);
    match &outcomes[0] {
        JobOutcome::Rejected { document } => assert_eq!(document, &printer.log[0]),
        other => panic!("submission should be rejected, found {:?}", other),
    }
}

#[test]
fn a_template_without_pages_produces_no_output() {
    let mut doc = lopdf::Document::with_version("1.5");
    let mut pages = lopdf::Dictionary::new();
    pages.set("Type", lopdf::Object::Name(b"Pages".to_vec()));
    pages.set("Kids", lopdf::Object::Array(Vec::new()));
    pages.set("Count", lopdf::Object::Integer(0));
    let pages_id = doc.add_object(lopdf::Object::Dictionary(pages));
    let mut catalog = lopdf::Dictionary::new();
    catalog.set("Type", lopdf::Object::Name(b"Catalog".to_vec()));
    catalog.set("Pages", lopdf::Object::Reference(pages_id));
    let catalog_id = doc.add_object(lopdf::Object::Dictionary(catalog));
    doc.trailer.set("Root", lopdf::Object::Reference(catalog_id));
    let mut empty_template: Vec<u8> = Vec::new();
    doc.save_to(&mut empty_template).unwrap();

    let outcome = inserter().compose(&empty_template, &photo_bytes(2, 2, 5));
    match outcome {
        Err(JobError::Document(DocumentError::NoPages)) => {}
        other => panic!("composition should fail without pages, found {:?}", other),
    }
}

#[test]
fn an_unparseable_template_aborts_the_job() {
    let inserter = inserter();
    let outcome = inserter.compose(&vec![1, 2, 3], &photo_bytes(2, 2, 5));
    assert!(matches!(outcome, Err(JobError::Document(DocumentError::NotLoadable))));
}

#[test]
fn an_undecodable_photo_aborts_the_job() {
    let inserter = inserter();
    let outcome = inserter.compose(&template_bytes(), &vec![9, 9, 9]);
    assert!(matches!(outcome, Err(JobError::Decode(_))));
}

#[test]
fn composited_output_round_trips_with_exact_image_dimensions() {
    let inserter = inserter();
    let output = inserter.compose(&template_bytes(), &photo_bytes(3, 2, 77)).unwrap();

    let doc = lopdf::Document::load_mem(&output).unwrap();
    let pages: Vec<(u32, u16)> = doc.get_pages().into_values().collect();
    assert_eq!(pages.len(), 1);

    let page = doc.get_dictionary(pages[0]).unwrap();
    let resources = page.get(b"Resources").unwrap().as_dict().unwrap();
    let xobjects = resources.get(b"XObject").unwrap().as_dict().unwrap();
    let image_ref = match xobjects.get(b"Im1").unwrap() {
        lopdf::Object::Reference(r) => *r,
        other => panic!("Im1 should be a reference, found {:?}", other),
    };
    match doc.get_object(image_ref).unwrap() {
        lopdf::Object::Stream(stream) => {
            assert_eq!(stream.dict.get(b"Width").unwrap(), &lopdf::Object::Integer(3));
            assert_eq!(stream.dict.get(b"Height").unwrap(), &lopdf::Object::Integer(2));
            assert_eq!(stream.content.len(), 6);
        }
        other => panic!("image should be a stream, found {:?}", other),
    }

    // The page's contents hold the original stream and the new fragment.
    match page.get(b"Contents").unwrap() {
        lopdf::Object::Array(members) => assert_eq!(members.len(), 2),
        other => panic!("Contents should be an array, found {:?}", other),
    }
}

#[test]
fn composition_is_deterministic() {
    let template = template_bytes();
    let photo = photo_bytes(3, 2, 55);
    let first = inserter().compose(&template, &photo).unwrap();
    let second = inserter().compose(&template, &photo).unwrap();
    assert_eq!(first, second);
}

#[test]
fn mock_printer_logs_submissions_in_order() {
    let mut printer = MockPrinter::new(true);
    assert_eq!(printer.submit(&vec![1]), Ok(1));
    assert_eq!(printer.submit(&vec![2]), Ok(2));
    assert_eq!(printer.log, vec![vec![1], vec![2]]);
}
