use photoqt::bitmap::{BitmapFormat, Library, PdfiumError};
use photoqt::imaging::PreviewImage;
use photoqt::session::{DEFAULT_CACHE_BOUND, PhotoAction, SessionController};

fn preview(gray: u8) -> PreviewImage {
    PreviewImage { width: 1, height: 1, pixels: vec![gray, gray, gray, 255] }
}

#[test]
fn a_fresh_session_is_empty_with_auto_mode_off() {
    let session = SessionController::new();
    assert!(session.image_list.is_empty());
    assert!(session.template_path.is_none());
    assert_eq!(session.cache.bound, DEFAULT_CACHE_BOUND);
    assert_eq!(session.current_index, 0);
    assert!(!session.is_auto_work);
}

#[test]
fn an_arriving_photo_is_shown_and_printed_only_in_auto_mode() {
    let mut session = SessionController::new();
    assert_eq!(session.note_photo("a.png".to_string()), PhotoAction::DisplayOnly);
    session.set_auto_work(true);
    assert_eq!(session.note_photo("b.png".to_string()), PhotoAction::QueuePrint);
    assert_eq!(session.image_list, vec!["a.png".to_string(), "b.png".to_string()]);
    assert_eq!(session.current_index, 1);
}

#[test]
fn pending_previews_are_the_recent_uncached_paths() {
    let mut session = SessionController::new();
    for i in 0..15 {
        session.note_photo(format!("photo-{}.png", i));
    }
    let pending = session.pending_previews();
    // Only the most recent 13 are considered; none is cached yet.
    assert_eq!(pending.len(), 13);
    assert_eq!(pending[0], "photo-2.png");
    assert_eq!(pending[12], "photo-14.png");

    session.store_preview("photo-2.png".to_string(), preview(1));
    session.store_preview("photo-3.png".to_string(), preview(2));
    let pending = session.pending_previews();
    assert_eq!(pending.len(), 11);
    assert_eq!(pending[0], "photo-4.png");
}

#[test]
fn stored_previews_are_found_again() {
    let mut session = SessionController::new();
    session.note_photo("a.png".to_string());
    assert!(session.get_preview(&"a.png".to_string()).is_none());
    session.store_preview("a.png".to_string(), preview(9));
    let found = session.get_preview(&"a.png".to_string()).unwrap();
    assert_eq!(found.pixels, vec![9, 9, 9, 255]);
}

#[test]
fn navigation_stays_within_the_history() {
    let mut session = SessionController::new();
    session.note_photo("a.png".to_string());
    session.note_photo("b.png".to_string());
    assert_eq!(session.current_index, 1);
    session.show_next();
    assert_eq!(session.current_index, 1);
    session.show_previous();
    assert_eq!(session.current_index, 0);
    session.show_previous();
    assert_eq!(session.current_index, 0);
    session.show_next();
    assert_eq!(session.current_index, 1);
}

#[test]
fn selecting_a_template_remembers_its_path() {
    let mut session = SessionController::new();
    session.set_template("Berlin.pdf".to_string());
    assert_eq!(session.template_path, Some("Berlin.pdf".to_string()));
}

#[test]
fn the_library_initializes_once() {
    assert!(Library::init_library(false).is_some());
    assert!(Library::init_library(true).is_none());
}

#[test]
fn error_codes_decode_like_the_native_library() {
    assert_eq!(PdfiumError::from_code(0), None);
    assert_eq!(PdfiumError::from_code(1), Some(PdfiumError::Unknown));
    assert_eq!(PdfiumError::from_code(2), Some(PdfiumError::BadFile));
    assert_eq!(PdfiumError::from_code(3), Some(PdfiumError::BadFormat));
    assert_eq!(PdfiumError::from_code(4), Some(PdfiumError::BadPassword));
    assert_eq!(PdfiumError::from_code(5), Some(PdfiumError::UnsupportedSecurityScheme));
    assert_eq!(PdfiumError::from_code(6), Some(PdfiumError::BadPage));
    assert_eq!(PdfiumError::from_code(99), Some(PdfiumError::Unknown));
}

#[test]
fn pixel_formats_know_their_size_and_code() {
    assert_eq!(BitmapFormat::GreyScale.bytes_per_pixel(), 1);
    assert_eq!(BitmapFormat::BGR.bytes_per_pixel(), 3);
    assert_eq!(BitmapFormat::BGRx.bytes_per_pixel(), 4);
    assert_eq!(BitmapFormat::BGRA.bytes_per_pixel(), 4);
    assert_eq!(BitmapFormat::from_i32(1), Some(BitmapFormat::GreyScale));
    assert_eq!(BitmapFormat::from_i32(4), Some(BitmapFormat::BGRA));
    assert_eq!(BitmapFormat::from_i32(0), None);
    assert_eq!(BitmapFormat::from_i32(7), None);
}

#[test]
fn bgra_buffers_swizzle_to_rgba() {
    let library = Library::init_library(false).unwrap();
    let rgba = library.bgra_to_rgba(&vec![1, 2, 3, 4, 5, 6, 7, 8, 9, 9]);
    assert_eq!(rgba, vec![3, 2, 1, 4, 7, 6, 5, 8]);
}

#[test]
fn bitmap_creation_validates_its_input() {
    let library = Library::init_library(false).unwrap();

    let bitmap = library.create_bitmap(2, 3, BitmapFormat::BGRA).unwrap();
    assert_eq!(bitmap.stride, 8);
    assert_eq!(bitmap.data.len(), 24);
    assert!(bitmap.data.iter().all(|b| *b == 0));

    assert_eq!(
        library.create_bitmap(0, 3, BitmapFormat::BGRA).unwrap_err(),
        PdfiumError::Unknown
    );

    // Too short a buffer for three rows of stride ten.
    assert_eq!(
        library.create_bitmap_from_buffer(2, 3, BitmapFormat::BGR, vec![0; 29], 10).unwrap_err(),
        PdfiumError::BadFormat
    );
    // A stride shorter than one row of pixels.
    assert_eq!(
        library.create_bitmap_from_buffer(4, 3, BitmapFormat::BGR, vec![0; 30], 10).unwrap_err(),
        PdfiumError::BadFormat
    );

    let bitmap = library.create_bitmap_from_buffer(2, 3, BitmapFormat::BGR, vec![7; 30], 10)
        .unwrap();
    assert_eq!(bitmap.width, 2);
    assert_eq!(bitmap.height, 3);
    assert_eq!(bitmap.stride, 10);
    // Full rows for all but the last row, which counts only its pixels.
    assert_eq!(library.get_bitmap_buffer_length(&bitmap), 26);
}
