//! Template documents and the photo overlay operation.
//!
//! A template is held as a `lopdf::Document`. The overlay operation adds
//! the grayscale photo as an image XObject stream, registers it in the
//! first page's resource dictionary under the fixed name `Im1`, and
//! appends a small content-stream fragment that draws the image into the
//! configured rectangle, leaving every pre-existing stream untouched.
//!
//! Verified code reasons about a document through a family of spec-level
//! observations (`pages_of`, `stream_data`, ...) whose values the trusted
//! wrappers below relate to the calls they make into lopdf.

use vstd::prelude::*;
use crate::errors::DocumentError;

verus! {

#[verifier::external_type_specification]
#[verifier::external_body]
pub struct ExDocument(lopdf::Document);

#[verifier::external_type_specification]
#[verifier::external_body]
pub struct ExLopdfError(lopdf::Error);

/// The page object ids of the document, in page order.
pub uninterp spec fn pages_of(doc: lopdf::Document) -> Seq<(u32, u16)>;

/// The raw data of the stream object with id `(num, gen)`, or the empty
/// sequence when no stream object has that id.
pub uninterp spec fn stream_data(doc: lopdf::Document, num: u32, gen: u16) -> Seq<u8>;

/// The integer at `key` in the dictionary of the stream object with id
/// `(num, gen)`, or `None` when no stream object has that id or its
/// dictionary has no integer at `key`.
pub uninterp spec fn stream_dict_int(doc: lopdf::Document, num: u32, gen: u16, key: Seq<char>) -> Option<i64>;

/// The name at `key` in the dictionary of the stream object with id
/// `(num, gen)`, or `None` when no stream object has that id or its
/// dictionary has no name at `key`.
pub uninterp spec fn stream_dict_name(doc: lopdf::Document, num: u32, gen: u16, key: Seq<char>) -> Option<Seq<char>>;

/// Whether a dictionary object is stored at id `(num, gen)` and has a
/// `Contents` entry.
pub uninterp spec fn contents_present(doc: lopdf::Document, num: u32, gen: u16) -> bool;

/// Whether the page's `Contents` entry is plain: either one direct
/// reference, or an array holding only references.
pub uninterp spec fn contents_is_plain(doc: lopdf::Document, num: u32, gen: u16) -> bool;

/// Whether the page's `Contents` entry is an array.
pub uninterp spec fn contents_is_array(doc: lopdf::Document, num: u32, gen: u16) -> bool;

/// The references held by a plain `Contents` entry, in order: one for a
/// direct reference, all members for an array of references.
pub uninterp spec fn contents_refs(doc: lopdf::Document, num: u32, gen: u16) -> Seq<(u32, u16)>;

/// Whether an image can be registered on the page with id `(num, gen)`:
/// a dictionary object is stored at that id, it holds a direct
/// `Resources` dictionary, and that dictionary's `XObject` entry, if
/// present, is itself a dictionary.
pub uninterp spec fn resources_editable(doc: lopdf::Document, num: u32, gen: u16) -> bool;

/// The named image XObject references registered on the page with id
/// `(num, gen)`.
pub uninterp spec fn xobjects_of(doc: lopdf::Document, num: u32, gen: u16) -> Map<Seq<char>, (u32, u16)>;

/// The largest object number in use in the document.
pub uninterp spec fn max_object_id(doc: lopdf::Document) -> int;

/// The bytes the document serializes to.
pub uninterp spec fn serialized(doc: lopdf::Document) -> Seq<u8>;

/// Whether serializing the document succeeds; a function of the
/// document value alone.
pub uninterp spec fn serializable(doc: lopdf::Document) -> bool;

/// Whether the bytes parse as a document; parsing is a function of the
/// bytes alone. The `parsed_*` observations below are the observations
/// of the document the bytes parse to.
pub uninterp spec fn parseable(bytes: Seq<u8>) -> bool;

/// `pages_of` of the document the bytes parse to.
pub uninterp spec fn parsed_pages(bytes: Seq<u8>) -> Seq<(u32, u16)>;

/// `max_object_id` of the document the bytes parse to.
pub uninterp spec fn parsed_max_id(bytes: Seq<u8>) -> int;

/// `stream_data` of the document the bytes parse to.
pub uninterp spec fn parsed_stream_data(bytes: Seq<u8>, num: u32, gen: u16) -> Seq<u8>;

/// `contents_present` of the document the bytes parse to.
pub uninterp spec fn parsed_contents_present(bytes: Seq<u8>, num: u32, gen: u16) -> bool;

/// `contents_is_plain` of the document the bytes parse to.
pub uninterp spec fn parsed_contents_is_plain(bytes: Seq<u8>, num: u32, gen: u16) -> bool;

/// `contents_refs` of the document the bytes parse to.
pub uninterp spec fn parsed_contents_refs(bytes: Seq<u8>, num: u32, gen: u16) -> Seq<(u32, u16)>;

/// `resources_editable` of the document the bytes parse to.
pub uninterp spec fn parsed_resources_editable(bytes: Seq<u8>, num: u32, gen: u16) -> bool;

/// `xobjects_of` of the document the bytes parse to.
pub uninterp spec fn parsed_xobjects(bytes: Seq<u8>, num: u32, gen: u16) -> Map<Seq<char>, (u32, u16)>;

/// The classified `Contents` entry of a page.
#[derive(Debug)]
pub enum PageContents {
    /// One direct reference to a content stream.
    SingleRef(u32, u16),
    /// An array of references to content streams.
    RefArray(Vec<(u32, u16)>),
    /// Present, but neither a reference nor an array of references.
    Other,
    /// No dictionary object is stored at the id, or it has no
    /// `Contents` entry.
    Missing,
}

/// Relies on lopdf::Document::load_mem: parses a document from bytes.
/// Parsing is a function of the bytes alone, so the parsed document's
/// observations are exactly the `parsed_*` observations of the bytes.
#[verifier::external_body]
pub(crate) fn parse_document(bytes: &[u8]) -> (parsed: Result<lopdf::Document, lopdf::Error>)
    ensures
        parsed is Ok <==> parseable(bytes@),
        parsed matches Ok(d) ==> {
            &&& pages_of(d) == parsed_pages(bytes@)
            &&& max_object_id(d) == parsed_max_id(bytes@)
            &&& forall|n: u32, g: u16| #[trigger]
                stream_data(d, n, g) == parsed_stream_data(bytes@, n, g)
            &&& forall|n: u32, g: u16| #[trigger]
                contents_present(d, n, g) == parsed_contents_present(bytes@, n, g)
            &&& forall|n: u32, g: u16| #[trigger]
                contents_is_plain(d, n, g) == parsed_contents_is_plain(bytes@, n, g)
            &&& forall|n: u32, g: u16| #[trigger]
                contents_refs(d, n, g) == parsed_contents_refs(bytes@, n, g)
            &&& forall|n: u32, g: u16| #[trigger]
                resources_editable(d, n, g) == parsed_resources_editable(bytes@, n, g)
            &&& forall|n: u32, g: u16| #[trigger]
                xobjects_of(d, n, g) == parsed_xobjects(bytes@, n, g)
        },
{
    lopdf::Document::load_mem(bytes)
}

/// Relies on lopdf::Document::get_pages: the page object ids in page
/// order (an ordered map walked in ascending page-number order).
#[verifier::external_body]
pub(crate) fn page_ids(doc: &lopdf::Document) -> (ids: Vec<(u32, u16)>)
    ensures
        ids@ == pages_of(*doc),
{
    doc.get_pages().into_values().collect()
}

/// Relies on the `max_id` field of lopdf::Document: the largest object
/// number in use.
#[verifier::external_body]
pub(crate) fn document_max_id(doc: &lopdf::Document) -> (m: u32)
    ensures
        m as int == max_object_id(*doc),
{
    doc.max_id
}

/// Relies on the `objects` map of lopdf::Document and
/// lopdf::Dictionary::get: reads and classifies the `Contents` entry of
/// the dictionary object stored at the page id.
#[verifier::external_body]
pub(crate) fn read_page_contents(doc: &lopdf::Document, page: (u32, u16)) -> (contents:
    PageContents)
    ensures
        match contents {
            PageContents::Missing => !contents_present(*doc, page.0, page.1),
            PageContents::SingleRef(n, g) => contents_present(*doc, page.0, page.1)
                && contents_is_plain(*doc, page.0, page.1) && !contents_is_array(
                *doc,
                page.0,
                page.1,
            ) && contents_refs(*doc, page.0, page.1) == seq![(n, g)],
            PageContents::RefArray(refs) => contents_present(*doc, page.0, page.1)
                && contents_is_plain(*doc, page.0, page.1) && contents_is_array(
                *doc,
                page.0,
                page.1,
            ) && refs@ == contents_refs(*doc, page.0, page.1),
            PageContents::Other => contents_present(*doc, page.0, page.1) && !contents_is_plain(
                *doc,
                page.0,
                page.1,
            ),
        },
{
    let Some(lopdf::Object::Dictionary(dict)) = doc.objects.get(&page) else { return PageContents::Missing };
    match dict.get(b"Contents") {
        Ok(lopdf::Object::Reference(r)) => PageContents::SingleRef(r.0, r.1),
        Ok(lopdf::Object::Array(arr)) => {
            let mut refs: Vec<(u32, u16)> = Vec::new();
            for member in arr {
                let lopdf::Object::Reference(r) = member else { return PageContents::Other };
                refs.push(*r);
            }
            PageContents::RefArray(refs)
        },
        Ok(_) => PageContents::Other,
        Err(_) => PageContents::Missing,
    }
}

/// Relies on the `objects` map of lopdf::Document, lopdf::Dictionary::get
/// and lopdf::Object::as_dict: whether the page's resource dictionary can
/// take an image registration.
#[verifier::external_body]
pub(crate) fn resources_ok(doc: &lopdf::Document, page: (u32, u16)) -> (ok: bool)
    ensures
        ok == resources_editable(*doc, page.0, page.1),
{
    let Some(lopdf::Object::Dictionary(dict)) = doc.objects.get(&page) else { return false };
    let Ok(res) = dict.get(b"Resources") else { return false };
    let Ok(res_dict) = res.as_dict() else { return false };
    match res_dict.get(b"XObject") {
        Ok(entry) => entry.as_dict().is_ok(),
        Err(_) => true,
    }
}

/// Relies on lopdf::Dictionary::set, lopdf::Stream::new and
/// lopdf::Document::add_object: adds a grayscale image XObject stream
/// holding the given pixel data, under a fresh object id.
#[verifier::external_body]
pub(crate) fn add_image_stream(
    doc: &mut lopdf::Document,
    width: i64,
    height: i64,
    gray: Vec<u8>,
) -> (id: (u32, u16))
    requires
        max_object_id(*old(doc)) + 1 <= u32::MAX as int,
    ensures
        id.0 as int == max_object_id(*old(doc)) + 1 && id.1 == 0,
        max_object_id(*final(doc)) == max_object_id(*old(doc)) + 1,
        stream_data(*final(doc), id.0, id.1) == gray@,
        stream_dict_int(*final(doc), id.0, id.1, "Width"@) == Some(width),
        stream_dict_int(*final(doc), id.0, id.1, "Height"@) == Some(height),
        stream_dict_int(*final(doc), id.0, id.1, "BitsPerComponent"@) == Some(8i64),
        stream_dict_name(*final(doc), id.0, id.1, "ColorSpace"@) == Some("DeviceGray"@),
        pages_of(*final(doc)) == pages_of(*old(doc)),
        forall|n: u32, g: u16|
            (n, g) != id ==> #[trigger] stream_data(*final(doc), n, g) == stream_data(
                *old(doc),
                n,
                g,
            ),
        forall|n: u32, g: u16, k: Seq<char>|
            (n, g) != id ==> #[trigger] stream_dict_int(*final(doc), n, g, k) == stream_dict_int(
                *old(doc),
                n,
                g,
                k,
            ),
        forall|n: u32, g: u16, k: Seq<char>|
            (n, g) != id ==> #[trigger] stream_dict_name(*final(doc), n, g, k) == stream_dict_name(
                *old(doc),
                n,
                g,
                k,
            ),
        forall|n: u32, g: u16| #[trigger]
            contents_present(*final(doc), n, g) == contents_present(*old(doc), n, g),
        forall|n: u32, g: u16| #[trigger]
            contents_is_plain(*final(doc), n, g) == contents_is_plain(*old(doc), n, g),
        forall|n: u32, g: u16| #[trigger]
            contents_is_array(*final(doc), n, g) == contents_is_array(*old(doc), n, g),
        forall|n: u32, g: u16| #[trigger]
            contents_refs(*final(doc), n, g) == contents_refs(*old(doc), n, g),
        forall|n: u32, g: u16| #[trigger]
            resources_editable(*final(doc), n, g) == resources_editable(*old(doc), n, g),
        forall|n: u32, g: u16| #[trigger]
            xobjects_of(*final(doc), n, g) == xobjects_of(*old(doc), n, g),
{
    let mut dict = lopdf::Dictionary::new();
    dict.set("Type", lopdf::Object::Name(b"XObject".to_vec()));
    dict.set("Subtype", lopdf::Object::Name(b"Image".to_vec()));
    dict.set("Width", lopdf::Object::Integer(width));
    dict.set("Height", lopdf::Object::Integer(height));
    dict.set("ColorSpace", lopdf::Object::Name(b"DeviceGray".to_vec()));
    dict.set("BitsPerComponent", lopdf::Object::Integer(8));
    doc.add_object(lopdf::Stream::new(dict, gray))
}

/// Relies on lopdf::Stream::new and lopdf::Document::add_object: adds a
/// bare content stream holding the given bytes, under a fresh object id.
#[verifier::external_body]
pub(crate) fn add_content_stream(doc: &mut lopdf::Document, data: Vec<u8>) -> (id: (u32, u16))
    requires
        max_object_id(*old(doc)) + 1 <= u32::MAX as int,
    ensures
        id.0 as int == max_object_id(*old(doc)) + 1 && id.1 == 0,
        max_object_id(*final(doc)) == max_object_id(*old(doc)) + 1,
        stream_data(*final(doc), id.0, id.1) == data@,
        pages_of(*final(doc)) == pages_of(*old(doc)),
        forall|n: u32, g: u16|
            (n, g) != id ==> #[trigger] stream_data(*final(doc), n, g) == stream_data(
                *old(doc),
                n,
                g,
            ),
        forall|n: u32, g: u16, k: Seq<char>|
            (n, g) != id ==> #[trigger] stream_dict_int(*final(doc), n, g, k) == stream_dict_int(
                *old(doc),
                n,
                g,
                k,
            ),
        forall|n: u32, g: u16, k: Seq<char>|
            (n, g) != id ==> #[trigger] stream_dict_name(*final(doc), n, g, k) == stream_dict_name(
                *old(doc),
                n,
                g,
                k,
            ),
        forall|n: u32, g: u16| #[trigger]
            contents_present(*final(doc), n, g) == contents_present(*old(doc), n, g),
        forall|n: u32, g: u16| #[trigger]
            contents_is_plain(*final(doc), n, g) == contents_is_plain(*old(doc), n, g),
        forall|n: u32, g: u16| #[trigger]
            contents_is_array(*final(doc), n, g) == contents_is_array(*old(doc), n, g),
        forall|n: u32, g: u16| #[trigger]
            contents_refs(*final(doc), n, g) == contents_refs(*old(doc), n, g),
        forall|n: u32, g: u16| #[trigger]
            resources_editable(*final(doc), n, g) == resources_editable(*old(doc), n, g),
        forall|n: u32, g: u16| #[trigger]
            xobjects_of(*final(doc), n, g) == xobjects_of(*old(doc), n, g),
{
    doc.add_object(lopdf::Stream::new(lopdf::Dictionary::new(), data))
}

/// Relies on the `objects` map of lopdf::Document,
/// lopdf::Dictionary::get_mut, lopdf::Object::as_dict_mut and
/// lopdf::Dictionary::set: registers an image reference in the page's
/// `XObject` resource dictionary, creating that dictionary when absent.
/// Only the dictionary object stored at the page id changes, and in it
/// only the `Resources` entry's `XObject` dictionary.
#[verifier::external_body]
pub(crate) fn register_page_xobject(
    doc: &mut lopdf::Document,
    page: (u32, u16),
    name: &str,
    image: (u32, u16),
)
    requires
        resources_editable(*old(doc), page.0, page.1),
    ensures
        xobjects_of(*final(doc), page.0, page.1) == xobjects_of(
            *old(doc),
            page.0,
            page.1,
        ).insert(name@, image),
        forall|n: u32, g: u16|
            (n, g) != page ==> #[trigger] xobjects_of(*final(doc), n, g) == xobjects_of(
                *old(doc),
                n,
                g,
            ),
        forall|n: u32, g: u16| #[trigger]
            resources_editable(*final(doc), n, g) == resources_editable(*old(doc), n, g),
        max_object_id(*final(doc)) == max_object_id(*old(doc)),
        pages_of(*final(doc)) == pages_of(*old(doc)),
        forall|n: u32, g: u16| #[trigger]
            stream_data(*final(doc), n, g) == stream_data(*old(doc), n, g),
        forall|n: u32, g: u16, k: Seq<char>| #[trigger]
            stream_dict_int(*final(doc), n, g, k) == stream_dict_int(*old(doc), n, g, k),
        forall|n: u32, g: u16, k: Seq<char>| #[trigger]
            stream_dict_name(*final(doc), n, g, k) == stream_dict_name(*old(doc), n, g, k),
        forall|n: u32, g: u16| #[trigger]
            contents_present(*final(doc), n, g) == contents_present(*old(doc), n, g),
        forall|n: u32, g: u16| #[trigger]
            contents_is_plain(*final(doc), n, g) == contents_is_plain(*old(doc), n, g),
        forall|n: u32, g: u16| #[trigger]
            contents_is_array(*final(doc), n, g) == contents_is_array(*old(doc), n, g),
        forall|n: u32, g: u16| #[trigger]
            contents_refs(*final(doc), n, g) == contents_refs(*old(doc), n, g),
{
    let key = name.as_bytes().to_vec();
    let Some(lopdf::Object::Dictionary(dict)) = doc.objects.get_mut(&page) else { return };
    let Ok(res) = dict.get_mut(b"Resources") else { return };
    let Ok(res_dict) = res.as_dict_mut() else { return };
    if !res_dict.has(b"XObject") {
        res_dict.set("XObject", lopdf::Object::Dictionary(lopdf::Dictionary::new()));
    }
    let Ok(entry) = res_dict.get_mut(b"XObject") else { return };
    let Ok(xobjects) = entry.as_dict_mut() else { return };
    xobjects.set(key, lopdf::Object::Reference(image));
}

/// Relies on the `objects` map of lopdf::Document and
/// lopdf::Dictionary::set: replaces the page's `Contents` entry with an
/// array of references. Only the dictionary object stored at the page
/// id changes, and in it only the `Contents` entry.
#[verifier::external_body]
pub(crate) fn set_page_contents_array(
    doc: &mut lopdf::Document,
    page: (u32, u16),
    refs: &Vec<(u32, u16)>,
)
    requires
        contents_present(*old(doc), page.0, page.1),
    ensures
        contents_present(*final(doc), page.0, page.1),
        contents_is_plain(*final(doc), page.0, page.1),
        contents_is_array(*final(doc), page.0, page.1),
        contents_refs(*final(doc), page.0, page.1) == refs@,
        forall|n: u32, g: u16|
            (n, g) != page ==> #[trigger] contents_present(*final(doc), n, g) == contents_present(
                *old(doc),
                n,
                g,
            ),
        forall|n: u32, g: u16|
            (n, g) != page ==> #[trigger] contents_is_plain(*final(doc), n, g)
                == contents_is_plain(*old(doc), n, g),
        forall|n: u32, g: u16|
            (n, g) != page ==> #[trigger] contents_is_array(*final(doc), n, g)
                == contents_is_array(*old(doc), n, g),
        forall|n: u32, g: u16|
            (n, g) != page ==> #[trigger] contents_refs(*final(doc), n, g) == contents_refs(
                *old(doc),
                n,
                g,
            ),
        forall|n: u32, g: u16| #[trigger]
            resources_editable(*final(doc), n, g) == resources_editable(*old(doc), n, g),
        forall|n: u32, g: u16| #[trigger]
            xobjects_of(*final(doc), n, g) == xobjects_of(*old(doc), n, g),
        max_object_id(*final(doc)) == max_object_id(*old(doc)),
        pages_of(*final(doc)) == pages_of(*old(doc)),
        forall|n: u32, g: u16| #[trigger]
            stream_data(*final(doc), n, g) == stream_data(*old(doc), n, g),
        forall|n: u32, g: u16, k: Seq<char>| #[trigger]
            stream_dict_int(*final(doc), n, g, k) == stream_dict_int(*old(doc), n, g, k),
        forall|n: u32, g: u16, k: Seq<char>| #[trigger]
            stream_dict_name(*final(doc), n, g, k) == stream_dict_name(*old(doc), n, g, k),
{
    let mut members: Vec<lopdf::Object> = Vec::new();
    for r in refs {
        members.push(lopdf::Object::Reference(*r));
    }
    if let Some(lopdf::Object::Dictionary(dict)) = doc.objects.get_mut(&page) {
        dict.set("Contents", lopdf::Object::Array(members));
    }
}

/// The document-point rectangle into which a photo is drawn on the
/// template's first page.
#[derive(Clone, Copy, Debug, PartialEq, Eq, Structural)]
pub struct OverlayRect {
    /// Horizontal offset of the rectangle's origin, in document points.
    pub x: i32,
    /// Vertical offset of the rectangle's origin, in document points.
    pub y: i32,
    /// Width of the rectangle, in document points.
    pub width: i32,
    /// Height of the rectangle, in document points.
    pub height: i32,
}

/// The decimal digits of `n` in ASCII, most significant first.
pub open spec fn dec_digits(n: nat) -> Seq<u8>
    decreases n,
{
    if n < 10 {
        seq![(48 + n) as u8]
    } else {
        dec_digits(n / 10).push((48 + n % 10) as u8)
    }
}

/// The ASCII decimal representation of `v`.
pub open spec fn int_ascii(v: int) -> Seq<u8> {
    if v < 0 {
        seq![45u8] + dec_digits((-v) as nat)
    } else {
        dec_digits(v as nat)
    }
}

/// The content-stream fragment that draws the registered image into the
/// rectangle: in ASCII, `q\n<w> 0 0 <h> <x> <y> cm\n/Im1 Do\nQ\n` (save
/// graphics state, map unit image space onto the rectangle, draw the
/// image, restore graphics state).
pub open spec fn spec_overlay_fragment(x: int, y: int, w: int, h: int) -> Seq<u8> {
    seq![113u8, 10] + int_ascii(w) + seq![32u8, 48, 32, 48, 32] + int_ascii(h) + seq![32u8]
        + int_ascii(x) + seq![32u8] + int_ascii(y) + seq![
        32u8,
        99,
        109,
        10,
        47,
        73,
        109,
        49,
        32,
        68,
        111,
        10,
        81,
        10,
    ]
}

fn push_dec_digits(out: &mut Vec<u8>, n: u64)
    ensures
        final(out)@ == old(out)@ + dec_digits(n as nat),
    decreases n,
{
    if n < 10 {
        out.push(48 + n as u8);
        assert(out@ =~= old(out)@ + dec_digits(n as nat));
    } else {
        assert(n / 10 < n);
        push_dec_digits(out, n / 10);
        out.push(48 + (n % 10) as u8);
        assert(out@ =~= old(out)@ + dec_digits(n as nat));
    }
}

fn push_int_ascii(out: &mut Vec<u8>, v: i32)
    ensures
        final(out)@ == old(out)@ + int_ascii(v as int),
{
    if v < 0 {
        out.push(45);
        let magnitude = -(v as i64);
        push_dec_digits(out, magnitude as u64);
        assert(out@ =~= old(out)@ + int_ascii(v as int));
    } else {
        push_dec_digits(out, v as u64);
    }
}

/// Builds the content-stream fragment that draws the image resource into
/// `rect`.
pub fn overlay_fragment(rect: &OverlayRect) -> (frag: Vec<u8>)
    ensures
        frag@ == spec_overlay_fragment(
            rect.x as int,
            rect.y as int,
            rect.width as int,
            rect.height as int,
        ),
{
    let mut out: Vec<u8> = Vec::new();
    out.push(113);  // 'q'
    out.push(10);  // '\n'
    push_int_ascii(&mut out, rect.width);
    out.push(32);  // ' '
    out.push(48);  // '0'
    out.push(32);  // ' '
    out.push(48);  // '0'
    out.push(32);  // ' '
    push_int_ascii(&mut out, rect.height);
    out.push(32);  // ' '
    push_int_ascii(&mut out, rect.x);
    out.push(32);  // ' '
    push_int_ascii(&mut out, rect.y);
    out.push(32);  // ' '
    out.push(99);  // 'c'
    out.push(109);  // 'm'
    out.push(10);  // '\n'
    out.push(47);  // '/'
    out.push(73);  // 'I'
    out.push(109);  // 'm'
    out.push(49);  // '1'
    out.push(32);  // ' '
    out.push(68);  // 'D'
    out.push(111);  // 'o'
    out.push(10);  // '\n'
    out.push(81);  // 'Q'
    out.push(10);  // '\n'
    proof {
        assert(out@ =~= spec_overlay_fragment(
            rect.x as int,
            rect.y as int,
            rect.width as int,
            rect.height as int,
        ));
    }
    out
}

/// The fixed name under which the photo is registered in the first
/// page's resource dictionary.
pub open spec fn image_resource_name() -> Seq<char> {
    "Im1"@
}

/// The page id the overlay operation works on: the first page.
pub open spec fn first_page(doc: lopdf::Document) -> (u32, u16) {
    pages_of(doc)[0]
}

/// Why an overlay on `doc` would fail, or `None` when it succeeds: no
/// pages at all, a first page without a `Contents` entry, a `Contents`
/// entry whose shape appending would not preserve, a first page whose
/// resource dictionary cannot take an image registration, or too few
/// object numbers left for the two new streams plus the margin the
/// writer's bookkeeping needs when the result is saved.
pub open spec fn overlay_error(doc: lopdf::Document) -> Option<DocumentError> {
    if pages_of(doc).len() == 0 {
        Some(DocumentError::NoPages)
    } else if !contents_present(doc, first_page(doc).0, first_page(doc).1) {
        Some(DocumentError::MissingContents)
    } else if !contents_is_plain(doc, first_page(doc).0, first_page(doc).1) {
        Some(DocumentError::UnexpectedContents)
    } else if !resources_editable(doc, first_page(doc).0, first_page(doc).1) {
        Some(DocumentError::BadResources)
    } else if max_object_id(doc) + 4 > u32::MAX as int {
        Some(DocumentError::TooManyObjects)
    } else {
        None
    }
}

/// `overlay_error` of the document the bytes parse to, phrased over
/// the parsed observations.
pub open spec fn parsed_overlay_error(bytes: Seq<u8>) -> Option<DocumentError> {
    if parsed_pages(bytes).len() == 0 {
        Some(DocumentError::NoPages)
    } else if !parsed_contents_present(bytes, parsed_pages(bytes)[0].0, parsed_pages(bytes)[0].1) {
        Some(DocumentError::MissingContents)
    } else if !parsed_contents_is_plain(bytes, parsed_pages(bytes)[0].0, parsed_pages(bytes)[0].1) {
        Some(DocumentError::UnexpectedContents)
    } else if !parsed_resources_editable(
        bytes,
        parsed_pages(bytes)[0].0,
        parsed_pages(bytes)[0].1,
    ) {
        Some(DocumentError::BadResources)
    } else if parsed_max_id(bytes) + 4 > u32::MAX as int {
        Some(DocumentError::TooManyObjects)
    } else {
        None
    }
}

/// The object ids touched by one successful overlay operation.
#[derive(Clone, Copy, Debug, PartialEq, Eq)]
pub struct OverlayIds {
    /// The first page, which received the overlay.
    pub page: (u32, u16),
    /// The added image XObject stream.
    pub image: (u32, u16),
    /// The added content stream that draws the image.
    pub content: (u32, u16),
}

/// Overlays a decoded grayscale photo onto the first page of the
/// document: adds the pixel data as an image XObject stream, registers
/// it under `Im1` in the page's resource dictionary (last write wins if
/// that name is taken), and appends a content-stream fragment drawing it
/// into `rect`. Every pre-existing object is left as it was, except the
/// first page's dictionary: its plain `Contents` entry becomes an array
/// holding the original references followed by the new one. A `Contents`
/// entry of any other shape is refused, since appending to it would
/// discard existing content. On failure the document is untouched.
pub fn overlay_photo(
    doc: &mut lopdf::Document,
    photo_width: u32,
    photo_height: u32,
    gray: Vec<u8>,
    rect: &OverlayRect,
) -> (outcome: Result<OverlayIds, DocumentError>)
    ensures
        match overlay_error(*old(doc)) {
            Some(failure) => outcome == Err::<OverlayIds, DocumentError>(failure) && *final(doc)
                == *old(doc),
            None => outcome is Ok,
        },
        outcome matches Ok(ids) ==> ({
            let page = first_page(*old(doc));
            &&& ids.page == page
            &&& ids.image.0 as int == max_object_id(*old(doc)) + 1 && ids.image.1 == 0
            &&& ids.content.0 as int == max_object_id(*old(doc)) + 2 && ids.content.1 == 0
            &&& max_object_id(*final(doc)) == max_object_id(*old(doc)) + 2
            &&& pages_of(*final(doc)) == pages_of(*old(doc))
            &&& stream_data(*final(doc), ids.image.0, ids.image.1) == gray@
            &&& stream_dict_int(*final(doc), ids.image.0, ids.image.1, "Width"@) == Some(
                photo_width as i64,
            )
            &&& stream_dict_int(*final(doc), ids.image.0, ids.image.1, "Height"@) == Some(
                photo_height as i64,
            )
            &&& stream_dict_int(*final(doc), ids.image.0, ids.image.1, "BitsPerComponent"@)
                == Some(8i64)
            &&& stream_dict_name(*final(doc), ids.image.0, ids.image.1, "ColorSpace"@) == Some(
                "DeviceGray"@,
            )
            &&& stream_data(*final(doc), ids.content.0, ids.content.1) == spec_overlay_fragment(
                rect.x as int,
                rect.y as int,
                rect.width as int,
                rect.height as int,
            )
            &&& xobjects_of(*final(doc), page.0, page.1) == xobjects_of(
                *old(doc),
                page.0,
                page.1,
            ).insert(image_resource_name(), ids.image)
            &&& contents_present(*final(doc), page.0, page.1)
            &&& contents_is_plain(*final(doc), page.0, page.1)
            &&& contents_is_array(*final(doc), page.0, page.1)
            &&& contents_refs(*final(doc), page.0, page.1) == contents_refs(
                *old(doc),
                page.0,
                page.1,
            ).push(ids.content)
            &&& forall|n: u32, g: u16|
                (n, g) != ids.image && (n, g) != ids.content ==> #[trigger] stream_data(
                    *final(doc),
                    n,
                    g,
                ) == stream_data(*old(doc), n, g)
            &&& forall|n: u32, g: u16|
                (n, g) != page ==> #[trigger] contents_present(*final(doc), n, g)
                    == contents_present(*old(doc), n, g) && contents_is_plain(*final(doc), n, g)
                    == contents_is_plain(*old(doc), n, g) && contents_is_array(*final(doc), n, g)
                    == contents_is_array(*old(doc), n, g) && contents_refs(*final(doc), n, g)
                    == contents_refs(*old(doc), n, g)
            &&& forall|n: u32, g: u16|
                (n, g) != page ==> #[trigger] xobjects_of(*final(doc), n, g) == xobjects_of(
                    *old(doc),
                    n,
                    g,
                )
            &&& forall|n: u32, g: u16| #[trigger]
                resources_editable(*final(doc), n, g) == resources_editable(*old(doc), n, g)
        }),
        // A template whose single page holds one direct content
        // reference gains exactly a second reference, and — whenever
        // that original reference names a real object of the template —
        // the stream behind it stays byte-identical.
        outcome matches Ok(ids) ==> !contents_is_array(
            *old(doc),
            first_page(*old(doc)).0,
            first_page(*old(doc)).1,
        ) ==> ({
            let page = first_page(*old(doc));
            let original = contents_refs(*old(doc), page.0, page.1)[0];
            &&& contents_refs(*final(doc), page.0, page.1) == seq![original, ids.content]
            &&& original.0 as int <= max_object_id(*old(doc)) ==> stream_data(
                *final(doc),
                original.0,
                original.1,
            ) == stream_data(*old(doc), original.0, original.1)
        }),
{
    let pages = page_ids(doc);
    if pages.len() == 0 {
        return Err(DocumentError::NoPages);
    }
    let page = pages[0];
    let contents = read_page_contents(doc, page);
    let mut refs: Vec<(u32, u16)> = match contents {
        PageContents::SingleRef(n, g) => vec![(n, g)],
        PageContents::RefArray(existing) => existing,
        PageContents::Other => {
            return Err(DocumentError::UnexpectedContents);
        },
        PageContents::Missing => {
            return Err(DocumentError::MissingContents);
        },
    };
    proof {
        assert(refs@ =~= contents_refs(*old(doc), page.0, page.1));
    }
    if !resources_ok(doc, page) {
        return Err(DocumentError::BadResources);
    }
    let max = document_max_id(doc);
    if max > u32::MAX - 4 {
        return Err(DocumentError::TooManyObjects);
    }
    let image_id = add_image_stream(doc, photo_width as i64, photo_height as i64, gray);
    let fragment = overlay_fragment(rect);
    let content_id = add_content_stream(doc, fragment);
    register_page_xobject(doc, page, "Im1", image_id);
    refs.push(content_id);
    set_page_contents_array(doc, page, &refs);
    proof {
        if !contents_is_array(*old(doc), page.0, page.1) {
            assert(contents_refs(*old(doc), page.0, page.1).push(content_id) =~= seq![
                contents_refs(*old(doc), page.0, page.1)[0],
                content_id,
            ]);
        }
    }
    Ok(OverlayIds { page, image: image_id, content: content_id })
}

/// Relies on lopdf::Document::save_to: the bytes the document serializes
/// to, or `None` when serialization fails. Writing goes to memory, so
/// the outcome and the bytes are a function of the document value alone.
/// The writer computes up to `max_id + 2` for its cross-reference
/// bookkeeping, so ids two short of the numbering limit are required of
/// the caller to keep that arithmetic from overflowing.
#[verifier::external_body]
pub(crate) fn serialize_document(doc: &mut lopdf::Document) -> (out: Option<Vec<u8>>)
    requires
        max_object_id(*old(doc)) + 2 <= u32::MAX as int,
    ensures
        out is Some <==> serializable(*old(doc)),
        out matches Some(bytes) ==> bytes@ == serialized(*old(doc)),
{
    let mut buffer: Vec<u8> = Vec::new();
    match doc.save_to(&mut buffer) {
        Ok(()) => Some(buffer),
        Err(_) => None,
    }
}

} // verus!

