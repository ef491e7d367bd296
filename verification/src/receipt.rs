//! Receipt store: raw QR submissions, deduplicated by exact payload.
//!
//! A submission is first checked syntactically (minimum length plus the
//! timestamp and fiscal-number markers), then inserted unless a receipt with
//! the same payload already exists, in which case the call reports a
//! duplicate and changes nothing.

use vstd::prelude::*;

use crate::text::{contains_seq, contains_str, str_eq_str, trim_str, trimmed};

verus! {

/// A stored receipt submission. Timestamps are milliseconds since the epoch.
pub struct Receipt {
    pub qr: String,
    pub received_at: i64,
    pub source: String,
    pub submitted_by: String,
}

pub ghost struct ReceiptModel {
    pub qr: Seq<char>,
    pub received_at: int,
    pub source: Seq<char>,
    pub submitted_by: Seq<char>,
}

impl View for Receipt {
    type V = ReceiptModel;

    open spec fn view(&self) -> ReceiptModel {
        ReceiptModel {
            qr: self.qr@,
            received_at: self.received_at as int,
            source: self.source@,
            submitted_by: self.submitted_by@,
        }
    }
}

impl Receipt {
    /// A field-for-field copy.
    pub fn copied(&self) -> (r: Receipt)
        ensures
            r@ == self@,
    {
        Receipt {
            qr: self.qr.clone(),
            received_at: self.received_at,
            source: self.source.clone(),
            submitted_by: self.submitted_by.clone(),
        }
    }
}

/// Outcome of a receipt submission.
#[derive(Clone, Copy, Debug, PartialEq, Eq, Structural)]
pub enum SubmitStatus {
    Accepted,
    Duplicate,
    InvalidFormat,
}

impl SubmitStatus {
    /// The wire code reported for this outcome.
    pub fn as_code(&self) -> (r: &'static str)
        ensures
            *self == SubmitStatus::Accepted ==> r@ == "ok"@,
            *self == SubmitStatus::Duplicate ==> r@ == "duplicate"@,
            *self == SubmitStatus::InvalidFormat ==> r@ == "invalid_qr"@,
    {
        match self {
            SubmitStatus::Accepted => "ok",
            SubmitStatus::Duplicate => "duplicate",
            SubmitStatus::InvalidFormat => "invalid_qr",
        }
    }
}

/// A receipt submission request: the QR payload with optional submitter and
/// source labels.
pub struct QrData {
    pub qr: String,
    pub user: Option<String>,
    pub source: Option<String>,
}

/// The body returned for a submission: the wire code of its outcome.
pub struct UploadResponse {
    pub status: &'static str,
}

/// Syntactic validity of a (trimmed) QR payload: at least 16 bytes, with a
/// timestamp marker and a fiscal-number marker.
pub open spec fn qr_valid(q: Seq<char>) -> bool {
    q.len() >= 16 && contains_seq(q, "t="@) && contains_seq(q, "fn="@)
}

/// Whether some stored receipt carries exactly the payload `qr`.
pub open spec fn holds_qr(s: Seq<ReceiptModel>, qr: Seq<char>) -> bool {
    exists|i: int| 0 <= i < s.len() && s[i].qr == qr
}

/// How many stored receipts carry exactly the payload `qr`.
pub open spec fn count_qr(s: Seq<ReceiptModel>, qr: Seq<char>) -> int
    decreases s.len(),
{
    if s.len() == 0 {
        0
    } else {
        count_qr(s.drop_last(), qr) + if s.last().qr == qr {
            1 as int
        } else {
            0 as int
        }
    }
}

/// What one submission does to the stored sequence, and what it reports.
pub open spec fn spec_submit(
    s: Seq<ReceiptModel>,
    qr_raw: Seq<char>,
    submitted_by: Seq<char>,
    source: Seq<char>,
    received_at: int,
) -> (Seq<ReceiptModel>, SubmitStatus) {
    let q = trimmed(qr_raw);
    if !qr_valid(q) {
        (s, SubmitStatus::InvalidFormat)
    } else if holds_qr(s, q) {
        (s, SubmitStatus::Duplicate)
    } else {
        (
            s.push(ReceiptModel { qr: q, received_at, source, submitted_by }),
            SubmitStatus::Accepted,
        )
    }
}

/// The receipt store, deduplicated by QR payload.
pub struct ReceiptStore {
    pub records: Vec<Receipt>,
}

impl View for ReceiptStore {
    type V = Seq<ReceiptModel>;

    open spec fn view(&self) -> Seq<ReceiptModel> {
        self.records@.map_values(|r: Receipt| r@)
    }
}

impl ReceiptStore {
    /// No two stored receipts share a payload, and every stored payload is
    /// a valid trimmed one.
    pub open spec fn wf(&self) -> bool {
        &&& forall|i: int, j: int| 0 <= i < j < self@.len() ==> self@[i].qr != self@[j].qr
        &&& forall|i: int|
            0 <= i < self@.len() ==> qr_valid(#[trigger] self@[i].qr) && self@[i].qr == trimmed(
                self@[i].qr,
            )
    }

    pub fn new() -> (r: ReceiptStore)
        ensures
            r@ == Seq::<ReceiptModel>::empty(),
            r.wf(),
    {
        let r = ReceiptStore { records: Vec::new() };
        proof {
            assert(r@ =~= Seq::<ReceiptModel>::empty());
        }
        r
    }

    pub fn len(&self) -> (n: usize)
        ensures
            n == self@.len(),
    {
        self.records.len()
    }

    /// Submits a QR payload. The payload is trimmed, validated, checked
    /// against the stored payloads, and inserted only when new.
    pub fn submit(
        &mut self,
        qr: &str,
        submitted_by: String,
        source: String,
        received_at: i64,
    ) -> (r: SubmitStatus)
        requires
            old(self).wf(),
        ensures
            final(self).wf(),
            (final(self)@, r) == spec_submit(
                old(self)@,
                qr@,
                submitted_by@,
                source@,
                received_at as int,
            ),
    {
        let t = trim_str(qr);
        if t.unicode_len() < 16 || !contains_str(t, "t=") || !contains_str(t, "fn=") {
            return SubmitStatus::InvalidFormat;
        }
        let n = self.records.len();
        let mut i: usize = 0;
        while i < n
            invariant
                0 <= i <= n,
                n == self@.len(),
                *self == *old(self),
                old(self).wf(),
                t@ == trimmed(qr@),
                qr_valid(t@),
                forall|k: int| 0 <= k < i ==> self@[k].qr != t@,
            decreases n - i,
        {
            if str_eq_str(self.records[i].qr.as_str(), t) {
                assert(self@[i as int].qr == t@);
                return SubmitStatus::Duplicate;
            }
            i = i + 1;
        }
        let rec = Receipt {
            qr: String::from_str(t),
            received_at,
            source,
            submitted_by,
        };
        proof {
            assert(!holds_qr(self@, t@));
            crate::text::lemma_trimmed_idempotent(qr@);
        }
        self.records.push(rec);
        proof {
            assert(self@ =~= old(self)@.push(
                ReceiptModel {
                    qr: trimmed(qr@),
                    received_at: received_at as int,
                    source: source@,
                    submitted_by: submitted_by@,
                },
            ));
        }
        SubmitStatus::Accepted
    }

    /// Submits a request body, defaulting the submitter and source labels as
    /// the upload endpoint does.
    pub fn submit_qr_data(&mut self, data: QrData, received_at: i64) -> (r: SubmitStatus)
        requires
            old(self).wf(),
        ensures
            final(self).wf(),
            (final(self)@, r) == spec_submit(
                old(self)@,
                data.qr@,
                (if data.user is Some {
                    data.user->Some_0@
                } else {
                    "anonymous"@
                }),
                (if data.source is Some {
                    data.source->Some_0@
                } else {
                    "telegram_webapp"@
                }),
                received_at as int,
            ),
    {
        let user = match data.user {
            Some(u) => u,
            None => String::from_str("anonymous"),
        };
        let source = match data.source {
            Some(s) => s,
            None => String::from_str("telegram_webapp"),
        };
        self.submit(data.qr.as_str(), user, source, received_at)
    }

    /// The stored receipts, most recent submission first, capped at `limit`.
    pub fn list_recent(&self, limit: usize) -> (r: Vec<Receipt>)
        ensures
            r@.len() == if self@.len() <= limit {
                self@.len() as int
            } else {
                limit as int
            },
            forall|k: int| 0 <= k < r@.len() ==> r@[k]@ == self@[self@.len() - 1 - k],
    {
        let n = self.records.len();
        let mut out: Vec<Receipt> = Vec::new();
        let mut i: usize = 0;
        while i < n && i < limit
            invariant
                0 <= i <= n,
                n == self@.len(),
                i <= limit,
                out@.len() == i,
                forall|k: int| 0 <= k < i ==> out@[k]@ == self@[n - 1 - k],
            decreases n - i,
        {
            out.push(self.records[n - 1 - i].copied());
            i = i + 1;
        }
        out
    }
}

/// If no stored receipt carries `qr`, the count of receipts carrying it is
/// zero.
proof fn lemma_count_qr_absent(s: Seq<ReceiptModel>, qr: Seq<char>)
    requires
        !holds_qr(s, qr),
    ensures
        count_qr(s, qr) == 0,
    decreases s.len(),
{
    if s.len() > 0 {
        assert(forall|i: int| 0 <= i < s.len() - 1 ==> s.drop_last()[i] == s[i]);
        lemma_count_qr_absent(s.drop_last(), qr);
    }
}

/// Submitting the same payload twice accepts it exactly once: the first call
/// reports success, the second reports a duplicate and changes nothing, and
/// exactly one stored receipt carries the payload afterwards.
pub proof fn lemma_submit_idempotent(
    s: Seq<ReceiptModel>,
    qr: Seq<char>,
    by1: Seq<char>,
    src1: Seq<char>,
    at1: int,
    by2: Seq<char>,
    src2: Seq<char>,
    at2: int,
)
    requires
        qr_valid(trimmed(qr)),
        !holds_qr(s, trimmed(qr)),
    ensures
        ({
            let (s1, r1) = spec_submit(s, qr, by1, src1, at1);
            let (s2, r2) = spec_submit(s1, qr, by2, src2, at2);
            r1 == SubmitStatus::Accepted && r2 == SubmitStatus::Duplicate && s2 == s1 && count_qr(
                s1,
                trimmed(qr),
            ) == 1
        }),
{
    let q = trimmed(qr);
    let (s1, r1) = spec_submit(s, qr, by1, src1, at1);
    lemma_count_qr_absent(s, q);
    assert(s1.last().qr == q);
    assert(s1.drop_last() =~= s);
    assert(holds_qr(s1, q)) by {
        assert(s1[s1.len() - 1].qr == q);
    }
}

} // verus!
