use vstd::prelude::*;
use crate::errors::{AppError, error_message};
use vstd::string::{StringSliceAdditionalSpecFns, StrSliceExecFns};

verus! {

broadcast use vstd::string::group_string_axioms;

/// How many failures in a row open the circuit.
pub const MAX_FAILURES: usize = 3;

/// How long, in seconds, an opened circuit stays open.
pub const OPEN_DURATION_SEC: i64 = 10;

/// The PDF returned when the PDF service cannot be used.
pub const FALLBACK_PDF: &'static str = "%PDF-1.4\n1 0 obj\n<< /Type /Catalog /Pages 2 0 R >>\nendobj\n2 0 obj\n<< /Type /Pages /Kids [3 0 R] /Count 1 >>\nendobj\n3 0 obj\n<< /Type /Page /Parent 2 0 R /MediaBox [0 0 612 792] /Resources << >> /Contents 4 0 R >>\nendobj\n4 0 obj\n<< /Length 51 >>\nstream\nBT\n/F1 12 Tf\n72 712 Td\n(Mock PDF Content) Tj\nET\nendstream\nendobj\nxref\n0 5\n0000000000 65535 f \n0000000009 00000 n \n0000000056 00000 n \n0000000111 00000 n \n0000000212 00000 n \ntrailer\n<< /Size 5 /Root 1 0 R >>\nstartxref\n311\n%%EOF";

/// The address to which a document request is posted, on the service at `base`.
pub fn generate_url(base: &str) -> (r: String)
    ensures
        r@ == base@ + "/v1/pdf/generate"@,
{
    let mut s = String::from_str(base);
    s.append("/v1/pdf/generate");
    s
}

/// The state of the circuit breaker in front of the PDF service: failures in a row since
/// the last success or opening, and the time, in seconds, until which the circuit is open.
#[derive(Debug, Clone, Copy)]
pub struct CircuitBreaker {
    pub failures: usize,
    pub open_until: i64,
}

/// The breaker after one more failure at `now`: the failure count grows, and when it
/// reaches `MAX_FAILURES` the circuit opens until `now + OPEN_DURATION_SEC` and the count
/// starts again from zero.
pub open spec fn after_failure(b: CircuitBreaker, now: i64) -> CircuitBreaker {
    if b.failures + 1 >= MAX_FAILURES {
        CircuitBreaker { failures: 0, open_until: (now + OPEN_DURATION_SEC) as i64 }
    } else {
        CircuitBreaker { failures: (b.failures + 1) as usize, open_until: b.open_until }
    }
}

/// The breaker after a success: closed, with no failures counted.
pub open spec fn after_success(b: CircuitBreaker) -> CircuitBreaker {
    CircuitBreaker { failures: 0, open_until: 0 }
}

/// Whether the circuit is open at `now`.
pub open spec fn open_at(b: CircuitBreaker, now: i64) -> bool {
    b.open_until > now
}

impl CircuitBreaker {
    /// Fewer failures counted than open the circuit.
    pub open spec fn wf(&self) -> bool {
        self.failures < MAX_FAILURES
    }

    /// A closed breaker with no failures.
    pub fn new() -> (r: CircuitBreaker)
        ensures
            r.wf(),
            r.failures == 0,
            r.open_until == 0,
    {
        CircuitBreaker { failures: 0, open_until: 0 }
    }

    /// Whether the circuit is open at `now`.
    pub fn is_open(&self, now: i64) -> (r: bool)
        ensures
            r == open_at(*self, now),
    {
        self.open_until > now
    }
}

/// What became of a call to the PDF service.
#[derive(Debug, Clone)]
pub enum PdfServiceReply {
    /// A success status, with the body read.
    Document(Vec<u8>),
    /// A success status, with a body that could not be read.
    UnreadableBody(String),
    /// A status that is not a success.
    ErrorStatus,
    /// No answer: the service could not be reached.
    Unreachable,
}

/// The PDF generator with its local fallback.
pub struct PdfProvider;

impl PdfProvider {
    /// Counts a failure at `now`, opening the circuit on the third failure in a row.
    pub fn record_failure(breaker: &mut CircuitBreaker, now: i64)
        requires
            old(breaker).wf(),
            now <= i64::MAX - OPEN_DURATION_SEC,
        ensures
            final(breaker).wf(),
            *final(breaker) == after_failure(*old(breaker), now),
    {
        let failures = breaker.failures + 1;
        if failures >= MAX_FAILURES {
            breaker.open_until = now + OPEN_DURATION_SEC;
            breaker.failures = 0;
        } else {
            breaker.failures = failures;
        }
    }

    /// Closes the circuit after a success.
    pub fn record_success(breaker: &mut CircuitBreaker)
        ensures
            final(breaker).wf(),
            *final(breaker) == after_success(*old(breaker)),
    {
        breaker.failures = 0;
        breaker.open_until = 0;
    }

    /// The local fallback PDF, as bytes.
    pub fn get_fallback_pdf_bytes() -> (r: Vec<u8>)
        ensures
            r@ == FALLBACK_PDF.spec_bytes(),
    {
        FALLBACK_PDF.as_bytes_vec()
    }

    /// The PDF to serve without calling the service: the fallback while the circuit is
    /// open at `now`, none otherwise (the service is to be called).
    pub fn short_circuit(breaker: &CircuitBreaker, now: i64) -> (r: Option<Vec<u8>>)
        ensures
            r is Some <==> open_at(*breaker, now),
            r matches Some(b) ==> b@ == FALLBACK_PDF.spec_bytes(),
    {
        if breaker.is_open(now) {
            Some(Self::get_fallback_pdf_bytes())
        } else {
            None
        }
    }

    /// What a call to the service made at `now` yields, and its effect on the breaker:
    /// a success closes the circuit and returns the document, or fails when the body could
    /// not be read; any other reply counts as a failure and yields the fallback.
    pub fn complete(breaker: &mut CircuitBreaker, now: i64, reply: PdfServiceReply) -> (r: Result<Vec<u8>, AppError>)
        requires
            old(breaker).wf(),
            now <= i64::MAX - OPEN_DURATION_SEC,
        ensures
            final(breaker).wf(),
            match reply {
                PdfServiceReply::Document(d) => *final(breaker) == after_success(*old(breaker)) && r == Ok::<
                    Vec<u8>,
                    AppError,
                >(d),
                PdfServiceReply::UnreadableBody(e) => *final(breaker) == after_success(*old(breaker))
                    && r is Err && r->Err_0 is Internal && error_message(r->Err_0) == "Falha ao ler bytes do PDF: "@
                    + e@,
                _ => *final(breaker) == after_failure(*old(breaker), now) && r is Ok
                    && r->Ok_0@ == FALLBACK_PDF.spec_bytes(),
            },
    {
        match reply {
            PdfServiceReply::Document(d) => {
                Self::record_success(breaker);
                Ok(d)
            },
            PdfServiceReply::UnreadableBody(e) => {
                Self::record_success(breaker);
                let mut msg = String::from_str("Falha ao ler bytes do PDF: ");
                msg.append(e.as_str());
                Err(AppError::Internal(msg))
            },
            _ => {
                Self::record_failure(breaker, now);
                Ok(Self::get_fallback_pdf_bytes())
            },
        }
    }
}

/// Three failures in a row on a breaker with no failures counted open the circuit for
/// `OPEN_DURATION_SEC` seconds from the last of them.
/// On a breaker that was never opened (its time `open_until` not after the first call)
/// the first two of three calls at `t1 <= t2 <= t3` reach the service; after the third
/// failure, every call made before `t3 + OPEN_DURATION_SEC` is answered with the fallback
/// without reaching it.
pub proof fn law_three_failures_open(b: CircuitBreaker, t1: i64, t2: i64, t3: i64)
    requires
        b.failures == 0,
        t3 <= i64::MAX - OPEN_DURATION_SEC,
    ensures
        ({
            let b1 = after_failure(b, t1);
            let b2 = after_failure(b1, t2);
            let b3 = after_failure(b2, t3);
            &&& open_at(b3, t3)
            &&& b3.open_until == t3 + OPEN_DURATION_SEC
            &&& b3.failures == 0
            &&& forall|now: i64| now < t3 + OPEN_DURATION_SEC ==> #[trigger] open_at(b3, now)
            &&& b.open_until <= t1 <= t2 <= t3 ==> !open_at(b, t1) && !open_at(b1, t2) && !open_at(b2, t3)
        }),
{
}

/// Fewer than three failures in a row leave a closed circuit closed.
pub proof fn law_two_failures_stay_closed(b: CircuitBreaker, t1: i64, t2: i64, now: i64)
    requires
        b.failures == 0,
        !open_at(b, now),
    ensures
        !open_at(after_failure(after_failure(b, t1), t2), now),
{
}

/// A success closes the circuit, whatever came before.
pub proof fn law_success_closes(b: CircuitBreaker, now: i64)
    requires
        now >= 0,
    ensures
        !open_at(after_success(b), now),
        after_success(b).failures == 0,
{
}

/// The fallback PDF is ASCII text, served as its characters' bytes: it starts with
/// `%PDF-1.4` and a line end, ends with `%%EOF` (no line end after it), and shows the
/// text `Mock PDF Content`.
pub proof fn law_fallback_pdf_shape()
    ensures
        vstd::string::is_ascii(FALLBACK_PDF),
        FALLBACK_PDF.spec_bytes() =~= Seq::new(FALLBACK_PDF@.len(), |i: int| FALLBACK_PDF@[i] as u8),
        FALLBACK_PDF@.take(9) == "%PDF-1.4\n"@,
        FALLBACK_PDF@.skip(FALLBACK_PDF@.len() - 5) == "%%EOF"@,
        crate::text::contains_spec(FALLBACK_PDF@, "(Mock PDF Content) Tj"@),
{
    reveal_strlit("%PDF-1.4\n1 0 obj\n<< /Type /Catalog /Pages 2 0 R >>\nendobj\n2 0 obj\n<< /Type /Pages /Kids [3 0 R] /Count 1 >>\nendobj\n3 0 obj\n<< /Type /Page /Parent 2 0 R /MediaBox [0 0 612 792] /Resources << >> /Contents 4 0 R >>\nendobj\n4 0 obj\n<< /Length 51 >>\nstream\nBT\n/F1 12 Tf\n72 712 Td\n(Mock PDF Content) Tj\nET\nendstream\nendobj\nxref\n0 5\n0000000000 65535 f \n0000000009 00000 n \n0000000056 00000 n \n0000000111 00000 n \n0000000212 00000 n \ntrailer\n<< /Size 5 /Root 1 0 R >>\nstartxref\n311\n%%EOF");
    reveal_strlit("%PDF-1.4\n");
    reveal_strlit("%%EOF");
    reveal_strlit("(Mock PDF Content) Tj");
    vstd::string::is_ascii_spec_bytes(FALLBACK_PDF);
    let needle: Seq<char> = "(Mock PDF Content) Tj"@;
    assert(FALLBACK_PDF@.subrange(274int, 274int + needle.len()) =~= needle);
    assert(crate::text::contains_spec(FALLBACK_PDF@, needle));
}

} // verus!
