//! Printer backends: device resolution and the submission capability.
//!
//! Two platform backends exist (a CUPS-style destination model and a
//! Windows spooler model); both resolve a device the same way, which
//! `resolve_device` captures over plain values. The
//! `Printer` trait is the capability a pipeline worker submits through;
//! `MockPrinter` is its in-library variant, which records submissions
//! instead of spooling.

use vstd::prelude::*;
use crate::errors::{PrinterResolutionError, SubmitError};

verus! {

/// Operating systems the program selects a print backend for.
#[derive(Clone, Copy, Debug, PartialEq, Eq, Structural)]
pub enum Platform {
    /// CUPS-style destination model.
    MacOs,
    /// Windows print-spooler model.
    Windows,
    /// Any platform without a print backend.
    Unsupported,
}

/// Index of the first device whose name is exactly `name`, or -1 when
/// none matches.
pub open spec fn first_match(devices: Seq<Seq<char>>, name: Seq<char>) -> int
    decreases devices.len(),
{
    if devices.len() == 0 {
        -1
    } else if devices.first() == name {
        0
    } else if first_match(devices.drop_first(), name) < 0 {
        -1
    } else {
        1 + first_match(devices.drop_first(), name)
    }
}

/// The device an optional requested name resolves to: the first exact
/// match among the enumerated devices when one exists, else the
/// platform's default device when one exists, else no device at all.
pub open spec fn spec_resolve(
    devices: Seq<Seq<char>>,
    requested: Option<Seq<char>>,
    default_index: Option<int>,
) -> Result<int, PrinterResolutionError> {
    if requested is Some && first_match(devices, requested.unwrap()) >= 0 {
        Ok(first_match(devices, requested.unwrap()))
    } else {
        match default_index {
            Some(d) => Ok(d),
            None => Err(PrinterResolutionError::NoPrinterAvailable),
        }
    }
}

proof fn lemma_first_match_at(devices: Seq<Seq<char>>, name: Seq<char>, k: int)
    requires
        0 <= k < devices.len(),
        devices[k] == name,
        forall|j: int| 0 <= j < k ==> devices[j] != name,
    ensures
        first_match(devices, name) == k,
    decreases devices.len(),
{
    if k > 0 {
        lemma_first_match_at(devices.drop_first(), name, k - 1);
    }
}

proof fn lemma_first_match_none(devices: Seq<Seq<char>>, name: Seq<char>)
    requires
        forall|j: int| 0 <= j < devices.len() ==> devices[j] != name,
    ensures
        first_match(devices, name) == -1,
    decreases devices.len(),
{
    if devices.len() > 0 {
        lemma_first_match_none(devices.drop_first(), name);
    }
}

/// Resolves an optional requested device name against the enumerated
/// devices: the first device with exactly the requested name wins; a
/// missing or unmatched name falls back to the platform's default
/// device; without a default either, resolution fails.
pub fn resolve_device(
    requested: Option<&String>,
    devices: &Vec<String>,
    default_index: Option<usize>,
) -> (resolved: Result<usize, PrinterResolutionError>)
    requires
        default_index matches Some(d) ==> d < devices@.len(),
    ensures
        ({
            let want = match requested {
                Some(n) => Some(n@),
                None => None,
            };
            let dflt = match default_index {
                Some(d) => Some(d as int),
                None => None,
            };
            match (resolved, spec_resolve(devices.deep_view(), want, dflt)) {
                (Ok(i), Ok(j)) => i as int == j,
                (Err(actual), Err(expected)) => actual == expected,
                _ => false,
            }
        }),
        resolved matches Ok(i) ==> i < devices@.len(),
{
    if requested.is_some() {
        let name = requested.unwrap();
        let mut i: usize = 0;
        while i < devices.len()
            invariant
                i <= devices@.len(),
                requested == Some(name),
                forall|j: int| 0 <= j < i ==> devices.deep_view()[j] != name@,
            decreases devices@.len() - i,
        {
            if devices[i] == *name {
                proof {
                    assert(devices.deep_view()[i as int] == name@);
                    lemma_first_match_at(devices.deep_view(), name@, i as int);
                }
                return Ok(i);
            }
            i = i + 1;
        }
        proof {
            lemma_first_match_none(devices.deep_view(), name@);
        }
    }
    match default_index {
        Some(d) => Ok(d),
        None => Err(PrinterResolutionError::NoPrinterAvailable),
    }
}

/// When the requested name matches no enumerated device, resolution
/// falls back to the default device when one exists, and fails with
/// `NoPrinterAvailable` otherwise.
pub proof fn lemma_resolve_falls_back(
    devices: Seq<Seq<char>>,
    name: Seq<char>,
    default_index: Option<int>,
)
    requires
        forall|j: int| 0 <= j < devices.len() ==> devices[j] != name,
    ensures
        spec_resolve(devices, Some(name), default_index) == match default_index {
            Some(d) => Ok::<int, PrinterResolutionError>(d),
            None => Err::<int, PrinterResolutionError>(
                PrinterResolutionError::NoPrinterAvailable,
            ),
        },
{
    lemma_first_match_none(devices, name);
}

/// A capability to submit composited documents to one printer device.
/// The pipeline reasons about any implementation through `submitted`,
/// the chronological log of submission attempts. The application
/// implements the capability once per platform; `MockPrinter` is the
/// in-library variant.
pub trait Printer: Sized {
    /// The documents handed to the spooler so far, oldest first.
    spec fn submitted(&self) -> Seq<Seq<u8>>;

    /// Submits the bytes of one composited document as one print job,
    /// extending the submission log by exactly that document; on success
    /// the spooler's job identifier, which is never zero, is returned.
    fn submit(&mut self, document: &Vec<u8>) -> (outcome: Result<u32, SubmitError>)
        ensures
            final(self).submitted() == old(self).submitted().push(document@),
            outcome matches Ok(job_id) ==> job_id != 0,
    ;
}

/// A printer that spools nothing: it records every submission and either
/// accepts with job identifiers 1, 2, ... or rejects everything.
pub struct MockPrinter {
    /// Every submitted document, oldest first.
    pub log: Vec<Vec<u8>>,
    /// Whether submissions are accepted or rejected.
    pub accept_jobs: bool,
}

impl MockPrinter {
    /// A mock printer with an empty submission log.
    pub fn new(accept_jobs: bool) -> (printer: MockPrinter)
        ensures
            printer.submitted() == Seq::<Seq<u8>>::empty(),
            printer.accept_jobs == accept_jobs,
    {
        let printer = MockPrinter { log: Vec::new(), accept_jobs };
        proof {
            assert(printer.log.deep_view() =~= Seq::<Seq<u8>>::empty());
        }
        printer
    }
}

impl Printer for MockPrinter {
    open spec fn submitted(&self) -> Seq<Seq<u8>> {
        self.log.deep_view()
    }

    fn submit(&mut self, document: &Vec<u8>) -> (outcome: Result<u32, SubmitError>) {
        let mut copy: Vec<u8> = Vec::new();
        let mut i: usize = 0;
        while i < document.len()
            invariant
                i <= document@.len(),
                copy@ == document@.take(i as int),
            decreases document@.len() - i,
        {
            copy.push(document[i]);
            proof {
                assert(copy@ =~= document@.take(i + 1));
            }
            i = i + 1;
        }
        proof {
            assert(copy@ =~= document@);
        }
        self.log.push(copy);
        proof {
            assert(self.log.deep_view() =~~= old(self).log.deep_view().push(document@));
        }
        if self.accept_jobs {
            let id = if self.log.len() < u32::MAX as usize {
                self.log.len() as u32
            } else {
                u32::MAX
            };
            Ok(id)
        } else {
            Err(SubmitError::Rejected)
        }
    }
}

/// The backend variant and device chosen for one pipeline worker at
/// spawn time.
#[derive(Clone, Copy, Debug, PartialEq, Eq, Structural)]
pub struct SelectedPrinter {
    /// The platform whose backend submits the jobs.
    pub platform: Platform,
    /// Index of the resolved device among the enumerated devices.
    pub device_index: usize,
}

/// Selects the print backend for the running platform and resolves the
/// optional requested device name against the enumerated devices, as a
/// pipeline worker does once at spawn time.
pub fn make_printer(
    platform: Platform,
    printer_name: Option<&String>,
    devices: &Vec<String>,
    default_index: Option<usize>,
) -> (selected: Result<SelectedPrinter, PrinterResolutionError>)
    requires
        default_index matches Some(d) ==> d < devices@.len(),
    ensures
        platform is Unsupported ==> selected == Err::<SelectedPrinter, PrinterResolutionError>(
            PrinterResolutionError::UnsupportedPlatform,
        ),
        !(platform is Unsupported) ==> ({
            let want = match printer_name {
                Some(n) => Some(n@),
                None => None,
            };
            let dflt = match default_index {
                Some(d) => Some(d as int),
                None => None,
            };
            match (selected, spec_resolve(devices.deep_view(), want, dflt)) {
                (Ok(s), Ok(j)) => s.platform == platform && s.device_index as int == j
                    && s.device_index < devices@.len(),
                (Err(actual), Err(expected)) => actual == expected,
                _ => false,
            }
        }),
{
    if matches!(platform, Platform::Unsupported) {
        return Err(PrinterResolutionError::UnsupportedPlatform);
    }
    match resolve_device(printer_name, devices, default_index) {
        Ok(device_index) => Ok(SelectedPrinter { platform, device_index }),
        Err(failure) => Err(failure),
    }
}

/// Classifies the job identifier a CUPS-style spooler returned: zero
/// means the submission was rejected, anything else is a live job.
pub fn classify_spool_result(job_id: u32) -> (outcome: Result<u32, SubmitError>)
    ensures
        job_id == 0 ==> outcome == Err::<u32, SubmitError>(SubmitError::Rejected),
        job_id != 0 ==> outcome == Ok::<u32, SubmitError>(job_id),
{
    if job_id == 0 {
        Err(SubmitError::Rejected)
    } else {
        Ok(job_id)
    }
}

} // verus!
