//! The print job pipeline.
//!
//! One dedicated worker owns a template and a resolved printer for its
//! whole lifetime. Per job it composites one photo onto a fresh copy of
//! the template and submits the result, strictly one job at a time and
//! in the order received; a failed job is recorded and skipped, and the
//! worker proceeds to the next.

use vstd::prelude::*;
use crate::errors::{DecodeError, DocumentError, JobError};
use crate::imaging;
use crate::pdf;
use crate::pdf::OverlayRect;
use crate::printer::Printer;

verus! {

/// A command for the pipeline worker.
pub enum InserterCommand {
    /// Composite the photo at `image_path`, writing the result to
    /// `output_path`, and submit it.
    Insert { image_path: String, output_path: String },
    /// Stop the worker.
    _Shutdown,
}

/// One pipeline worker's fixed configuration: the template document and
/// the overlay rectangle, captured at spawn time.
pub struct PdfImageInserter {
    /// Path of the template document, loaded fresh for every job.
    pub template_path: String,
    /// Where on the first page the photo is drawn.
    pub rect: OverlayRect,
}

/// Why compositing one photo onto the template fails before anything
/// would be saved, or `None` when the overlay goes through: the
/// template bytes do not parse, the photo bytes do not decode, or the
/// parsed template cannot take an overlay. A function of the two byte
/// sequences alone, so compositing is deterministic.
pub open spec fn spec_compose_error(template: Seq<u8>, photo: Seq<u8>) -> Option<JobError> {
    if !pdf::parseable(template) {
        Some(JobError::Document(DocumentError::NotLoadable))
    } else if !imaging::decodable(photo) {
        Some(JobError::Decode(DecodeError::Undecodable))
    } else {
        match pdf::parsed_overlay_error(template) {
            Some(failure) => Some(JobError::Document(failure)),
            None => None,
        }
    }
}

/// That `d` is exactly one overlay of the photo onto the parsed
/// template: the pages are the template's; one added image stream holds
/// the photo's grayscale rendering with its exact dimensions, eight
/// bits per component and the `DeviceGray` color space; one added
/// content stream holds the drawing fragment for `rect`; the first
/// page's resources gain `Im1` and its `Contents` gains exactly the one
/// new reference; and every other stream is byte-identical to the
/// template's.
pub open spec fn spec_overlaid(
    d: lopdf::Document,
    template: Seq<u8>,
    photo: Seq<u8>,
    rect: OverlayRect,
) -> bool {
    let page = pdf::parsed_pages(template)[0];
    let image = ((pdf::parsed_max_id(template) + 1) as u32, 0u16);
    let content = ((pdf::parsed_max_id(template) + 2) as u32, 0u16);
    &&& pdf::pages_of(d) == pdf::parsed_pages(template)
    &&& pdf::stream_data(d, image.0, image.1) == imaging::decoded_gray(photo)
    &&& pdf::stream_dict_int(d, image.0, image.1, "Width"@) == Some(
        imaging::decoded_width(photo) as i64,
    )
    &&& pdf::stream_dict_int(d, image.0, image.1, "Height"@) == Some(
        imaging::decoded_height(photo) as i64,
    )
    &&& pdf::stream_dict_int(d, image.0, image.1, "BitsPerComponent"@) == Some(8i64)
    &&& pdf::stream_dict_name(d, image.0, image.1, "ColorSpace"@) == Some("DeviceGray"@)
    &&& pdf::stream_data(d, content.0, content.1) == pdf::spec_overlay_fragment(
        rect.x as int,
        rect.y as int,
        rect.width as int,
        rect.height as int,
    )
    &&& pdf::xobjects_of(d, page.0, page.1) == pdf::parsed_xobjects(
        template,
        page.0,
        page.1,
    ).insert(pdf::image_resource_name(), image)
    &&& pdf::contents_is_array(d, page.0, page.1)
    &&& pdf::contents_refs(d, page.0, page.1) == pdf::parsed_contents_refs(
        template,
        page.0,
        page.1,
    ).push(content)
    &&& forall|n: u32, g: u16|
        (n, g) != image && (n, g) != content ==> #[trigger] pdf::stream_data(d, n, g)
            == pdf::parsed_stream_data(template, n, g)
}

/// Bytes that serialize exactly one overlay of the photo onto the
/// template.
pub open spec fn composed_ok(
    output: Seq<u8>,
    template: Seq<u8>,
    photo: Seq<u8>,
    rect: OverlayRect,
) -> bool {
    exists|d: lopdf::Document|
        (#[trigger] spec_overlaid(d, template, photo, rect)) && pdf::serializable(d) && output
            == pdf::serialized(d)
}

/// The overlay went through but its result will not serialize.
pub open spec fn composition_unsaveable(
    template: Seq<u8>,
    photo: Seq<u8>,
    rect: OverlayRect,
) -> bool {
    exists|d: lopdf::Document|
        (#[trigger] spec_overlaid(d, template, photo, rect)) && !pdf::serializable(d)
}

/// What became of one queued job.
#[derive(Debug)]
pub enum JobOutcome {
    /// Composited and handed to the spooler, which accepted it.
    Printed {
        /// The spooler's job identifier.
        job_id: u32,
        /// The submitted document.
        document: Vec<u8>,
    },
    /// Composited and handed to the spooler, which rejected it.
    Rejected {
        /// The rejected document.
        document: Vec<u8>,
    },
    /// Not composited; nothing was handed to the spooler.
    Skipped {
        /// Why the job was abandoned.
        error: JobError,
    },
}

/// The documents handed to the spooler by the given jobs, in order:
/// every composited document, whether the spooler accepted it or not.
pub open spec fn attempted_documents(outcomes: Seq<JobOutcome>) -> Seq<Seq<u8>>
    decreases outcomes.len(),
{
    if outcomes.len() == 0 {
        Seq::empty()
    } else {
        let rest = attempted_documents(outcomes.drop_last());
        match outcomes.last() {
            JobOutcome::Printed { document, .. } => rest.push(document@),
            JobOutcome::Rejected { document } => rest.push(document@),
            JobOutcome::Skipped { .. } => rest,
        }
    }
}

/// What one recorded outcome says of its job: a `Printed` or `Rejected`
/// job was composited — so compositing cannot have failed — and its
/// document serializes exactly one overlay of that photo onto the
/// template; a `Skipped` job carries exactly the compositing failure,
/// or the save failure when only serialization refused.
pub open spec fn outcome_for_job(
    outcome: JobOutcome,
    template: Seq<u8>,
    photo: Seq<u8>,
    rect: OverlayRect,
) -> bool {
    match outcome {
        JobOutcome::Printed { document, .. } => spec_compose_error(template, photo) is None
            && composed_ok(document@, template, photo, rect),
        JobOutcome::Rejected { document } => spec_compose_error(template, photo) is None
            && composed_ok(document@, template, photo, rect),
        JobOutcome::Skipped { error } => match spec_compose_error(template, photo) {
            Some(failure) => error == failure,
            None => error == JobError::Document(DocumentError::SaveFailed)
                && composition_unsaveable(template, photo, rect),
        },
    }
}

/// Jobs that were all composited were also all handed to the spooler:
/// without a skipped job, the submission log grows by one document per
/// job. Together with the log clause of `process_jobs` this closes the
/// ordering law: two jobs that both composite produce two sequential
/// submissions, the first logged before the second.
pub proof fn lemma_all_jobs_submitted(outcomes: Seq<JobOutcome>)
    requires
        forall|i: int|
            0 <= i < outcomes.len() ==> !(#[trigger] outcomes[i] matches JobOutcome::Skipped {
                ..
            }),
    ensures
        attempted_documents(outcomes).len() == outcomes.len(),
    decreases outcomes.len(),
{
    if outcomes.len() > 0 {
        assert(outcomes[outcomes.len() - 1] == outcomes.last());
        lemma_all_jobs_submitted(outcomes.drop_last());
    }
}

impl PdfImageInserter {
    /// Captures a worker's configuration: the template path and the
    /// overlay rectangle in document points.
    pub fn new(template_path: String, x: i32, y: i32, width: i32, height: i32) -> (inserter:
        PdfImageInserter)
        ensures
            inserter.template_path == template_path,
            inserter.rect == (OverlayRect { x, y, width, height }),
    {
        PdfImageInserter { template_path, rect: OverlayRect { x, y, width, height } }
    }

    /// Composites one photo onto a fresh copy of the template: parses
    /// the template bytes, decodes the photo, overlays its grayscale
    /// rendering into the configured rectangle, and serializes the
    /// mutated document. Succeeds exactly when the template parses, the
    /// photo decodes, the parsed template can take the overlay, and the
    /// result serializes; each failure reports its exact cause, and the
    /// result depends only on the template bytes, the photo bytes and
    /// the rectangle.
    pub fn compose(&self, template: &Vec<u8>, photo: &Vec<u8>) -> (document: Result<
        Vec<u8>,
        JobError,
    >)
        ensures
            ({
                let failure = spec_compose_error(template@, photo@);
                match document {
                    Ok(bytes) => failure is None && composed_ok(
                        bytes@,
                        template@,
                        photo@,
                        self.rect,
                    ),
                    Err(e) => match failure {
                        Some(f) => e == f,
                        None => e == JobError::Document(DocumentError::SaveFailed)
                            && composition_unsaveable(template@, photo@, self.rect),
                    },
                }
            }),
    {
        let parsed = pdf::parse_document(template.as_slice());
        if parsed.is_err() {
            return Err(JobError::Document(DocumentError::NotLoadable));
        }
        let mut doc = parsed.unwrap();
        let ghost d0 = doc;
        let decoded = imaging::decode_photo(photo.as_slice());
        if decoded.is_err() {
            return Err(JobError::Decode(DecodeError::Undecodable));
        }
        let img = decoded.unwrap();
        let gray = imaging::photo_to_gray(&img);
        let (width, height, pixels) = gray;
        proof {
            assert(pdf::overlay_error(d0) == pdf::parsed_overlay_error(template@));
        }
        match pdf::overlay_photo(&mut doc, width, height, pixels, &self.rect) {
            Ok(_) => {},
            Err(failure) => {
                return Err(JobError::Document(failure));
            },
        }
        let ghost overlaid = doc;
        proof {
            assert forall|n: u32, g: u16|
                (n, g) != (((pdf::parsed_max_id(template@) + 1) as u32, 0u16)) && (n, g) != ((
                (pdf::parsed_max_id(template@) + 2) as u32,
                0u16,
            )) implies #[trigger] pdf::stream_data(overlaid, n, g) == pdf::parsed_stream_data(
                template@,
                n,
                g,
            ) by {
                assert(pdf::stream_data(overlaid, n, g) == pdf::stream_data(d0, n, g));
            }
            assert(spec_overlaid(overlaid, template@, photo@, self.rect));
        }
        match pdf::serialize_document(&mut doc) {
            Some(bytes) => {
                proof {
                    assert(composed_ok(bytes@, template@, photo@, self.rect));
                }
                Ok(bytes)
            },
            None => {
                proof {
                    assert(composition_unsaveable(template@, photo@, self.rect));
                }
                Err(JobError::Document(DocumentError::SaveFailed))
            },
        }
    }

    /// Processes a queue of photos exactly as the worker thread does:
    /// strictly in order, one at a time, each job composited and then
    /// submitted before the next job starts. Every composited document
    /// — and nothing else — is handed to the printer, in job order; a
    /// failed job records its exact failure and is skipped without
    /// stopping the worker.
    pub fn process_jobs<P: Printer>(
        &self,
        template: &Vec<u8>,
        photos: &Vec<Vec<u8>>,
        printer: &mut P,
    ) -> (outcomes: Vec<JobOutcome>)
        ensures
            outcomes@.len() == photos@.len(),
            forall|i: int|
                0 <= i < outcomes@.len() ==> #[trigger] outcome_for_job(
                    outcomes@[i],
                    template@,
                    photos@[i]@,
                    self.rect,
                ),
            final(printer).submitted() == old(printer).submitted() + attempted_documents(
                outcomes@,
            ),
    {
        let mut outcomes: Vec<JobOutcome> = Vec::new();
        let mut i: usize = 0;
        proof {
            assert(printer.submitted() =~= old(printer).submitted() + attempted_documents(
                outcomes@,
            ));
        }
        while i < photos.len()
            invariant
                i <= photos@.len(),
                outcomes@.len() == i,
                forall|j: int|
                    0 <= j < i ==> #[trigger] outcome_for_job(
                        outcomes@[j],
                        template@,
                        photos@[j]@,
                        self.rect,
                    ),
                printer.submitted() == old(printer).submitted() + attempted_documents(outcomes@),
            decreases photos@.len() - i,
        {
            let ghost outcomes_before = outcomes@;
            match self.compose(template, &photos[i]) {
                Ok(document) => {
                    let ghost doc_view = document@;
                    match printer.submit(&document) {
                        Ok(job_id) => {
                            outcomes.push(JobOutcome::Printed { job_id, document });
                        },
                        Err(_) => {
                            outcomes.push(JobOutcome::Rejected { document });
                        },
                    }
                    proof {
                        assert(outcomes@.drop_last() =~= outcomes_before);
                        assert(attempted_documents(outcomes@) =~= attempted_documents(
                            outcomes_before,
                        ).push(doc_view));
                    }
                },
                Err(error) => {
                    outcomes.push(JobOutcome::Skipped { error });
                    proof {
                        assert(outcomes@.drop_last() =~= outcomes_before);
                    }
                },
            }
            proof {
                assert(printer.submitted() =~= old(printer).submitted() + attempted_documents(
                    outcomes@,
                ));
            }
            i = i + 1;
        }
        outcomes
    }
}

} // verus!
