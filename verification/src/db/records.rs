//! Records kept in the database, and the decisions made when they are
//! written: how a rescanned finding is reconciled with the stored one, how a
//! line number is stored, and when a scan session is complete.

use vstd::prelude::*;
use crate::shared::types::{is_uuid_v4, new_v4_string};
use crate::text::{concat_strs, join_with, str_eq};

verus! {

/// One broker's part of a scan job.
#[derive(Debug, Clone)]
pub struct BrokerScan {
    /// Unique identifier for this broker scan
    pub id: String,
    /// ID of the parent scan job
    pub scan_job_id: String,
    /// ID of the broker being scanned
    pub broker_id: String,
    /// Current status (Pending, Success, Failed, Skipped)
    pub status: String,
    /// When the scan started (RFC3339)
    pub started_at: Option<String>,
    /// When the scan completed (RFC3339)
    pub completed_at: Option<String>,
    /// Error message if the scan failed
    pub error_message: Option<String>,
    /// Number of findings discovered in this scan
    pub findings_count: i64,
}

/// A browser cookie as stored after a scan.
#[derive(Debug, Clone)]
pub struct BrowserCookie {
    pub id: String,
    pub vault_id: String,
    pub browser_type: String,
    pub profile_name: Option<String>,
    pub cookie_name: String,
    pub cookie_domain: String,
    pub cookie_value: Option<String>,
    pub cookie_path: String,
    pub creation_time: Option<i64>,
    pub expiry_time: Option<i64>,
    pub last_access_time: Option<i64>,
    pub is_secure: i32,
    pub is_httponly: i32,
    pub same_site: Option<String>,
    pub matched_broker_id: Option<String>,
    pub scan_timestamp: String,
    pub removal_status: String,
    pub removed_at: Option<String>,
    pub cookie_db_filename: String,
}

/// PII found in local data (files, browsers, mail).
#[derive(Debug, Clone)]
pub struct DiscoveryFinding {
    /// Unique identifier
    pub id: String,
    /// Vault this finding belongs to
    pub vault_id: String,
    /// Source of the finding (filesystem, browser, email)
    pub source: String,
    /// Where in the source (file path, browser name, ...)
    pub source_detail: String,
    /// Type of finding (`pii_exposure`, `broker_contact`, `broker_account`)
    pub finding_type: String,
    /// Risk level (critical, medium, informational)
    pub risk_level: String,
    /// Human-readable description
    pub description: String,
    /// Recommended action
    pub recommended_action: Option<String>,
    /// PII type (email, phone, ssn, address, ...)
    pub pii_type: String,
    /// The user says it was fixed
    pub remediated: bool,
    /// The user accepts it
    pub ignored: bool,
    /// Found again after being marked remediated
    pub still_present_after_remediation: bool,
    /// When found (RFC3339)
    pub found_at: String,
    /// The matched value
    pub matched_value: Option<String>,
    /// Line where the PII was found
    pub line_number: Option<i64>,
}

/// What is needed to record a new discovery finding.
#[derive(Debug)]
pub struct CreateDiscoveryFinding {
    pub vault_id: String,
    pub source: String,
    pub source_detail: String,
    pub finding_type: String,
    pub risk_level: String,
    pub description: String,
    pub recommended_action: Option<String>,
    pub pii_type: String,
    pub matched_value: Option<String>,
    pub line_number: Option<usize>,
}

/// The removal attempts of one scan job, counted by status.
#[derive(Debug, Clone)]
pub struct RemovalJobSummary {
    /// The scan job
    pub scan_job_id: String,
    /// When the earliest attempt was created (RFC3339)
    pub submitted_at: String,
    /// Number of attempts
    pub total: i64,
    /// Attempts with status "Submitted"
    pub submitted_count: i64,
    /// Attempts with status "Completed"
    pub completed_count: i64,
    /// Attempts with status "Failed"
    pub failed_count: i64,
    /// Attempts with status "Pending"
    pub pending_count: i64,
}

/// A reminder to follow up on a removal request.
#[derive(Debug, Clone)]
pub struct RemovalFollowup {
    pub id: String,
    pub attempt_id: String,
    pub broker_id: String,
    pub recipient: String,
    pub follow_up_at: String,
    pub sent_at: Option<String>,
    pub dismissed_at: Option<String>,
    pub method: Option<String>,
}

/// What a scan session looks for.
#[derive(Debug, Clone)]
pub struct ScanConfig {
    pub scan_emails: bool,
    pub scan_phones: bool,
    pub scan_ssn: bool,
    pub scan_addresses: bool,
    pub scan_names: bool,
    pub scan_dob: bool,
}

/// One run of the local PII scan.
#[derive(Debug, Clone)]
pub struct ScanSession {
    pub id: String,
    pub vault_id: String,
    pub started_at: String,
    pub completed_at: Option<String>,
    pub status: String,
    pub total_files_scanned: i64,
    pub total_findings: i64,
    pub scan_config: ScanConfig,
    pub error_message: Option<String>,
}

impl Default for ScanConfig {
    /// Every kind of PII is looked for.
    fn default() -> (r: Self)
        ensures
            r.scan_emails && r.scan_phones && r.scan_ssn && r.scan_addresses && r.scan_names
                && r.scan_dob,
    {
        ScanConfig {
            scan_emails: true,
            scan_phones: true,
            scan_ssn: true,
            scan_addresses: true,
            scan_names: true,
            scan_dob: true,
        }
    }
}

/// A stored line number: the line as an `i64`, or 0 where it does not fit.
pub open spec fn stored_line(n: usize) -> i64 {
    if n <= i64::MAX {
        n as i64
    } else {
        0
    }
}

/// The optional line number as it is stored.
pub open spec fn stored_line_opt(n: Option<usize>) -> Option<i64> {
    match n {
        Some(k) => Some(stored_line(k)),
        None => None,
    }
}

/// Converts a line number for storage (`i64::try_from`, 0 when it fails).
pub fn line_number_to_db(n: Option<usize>) -> (r: Option<i64>)
    ensures
        r == stored_line_opt(n),
{
    match n {
        Some(k) => {
            if k as u128 <= 9223372036854775807u128 {
                Some(k as i64)
            } else {
                Some(0)
            }
        },
        None => None,
    }
}

/// A flag stored as an integer: any value but 0 is set.
pub fn flag_from_db(v: i64) -> (r: bool)
    ensures
        r == (v != 0),
{
    v != 0
}

/// Whether the stored finding has to be marked as still present: it was
/// remediated and is not yet so marked.
pub open spec fn needs_still_present_mark(f: DiscoveryFinding) -> bool {
    f.remediated && !f.still_present_after_remediation
}

impl DiscoveryFinding {
    /// Reconciles a finding that is found again with its stored record: a
    /// remediated finding is marked as still present (the stored record
    /// must then be updated, which the result says); any other finding,
    /// ignored or not, is returned as it is.
    pub fn reconcile_rescan(self) -> (r: (DiscoveryFinding, bool))
        ensures
            r.1 == needs_still_present_mark(self),
            r.1 ==> r.0 == (DiscoveryFinding { still_present_after_remediation: true, ..self }),
            !r.1 ==> r.0 == self,
    {
        let mut f = self;
        if f.remediated && !f.still_present_after_remediation {
            f.still_present_after_remediation = true;
            (f, true)
        } else {
            (f, false)
        }
    }

    /// The new finding recorded for `params`, found at `found_at`, with a
    /// fresh random identifier; nothing is remediated or ignored yet.
    pub fn create(params: CreateDiscoveryFinding, found_at: String) -> (r: DiscoveryFinding)
        ensures
            is_uuid_v4(r.id@),
            r.vault_id == params.vault_id,
            r.source == params.source,
            r.source_detail == params.source_detail,
            r.finding_type == params.finding_type,
            r.risk_level == params.risk_level,
            r.description == params.description,
            r.recommended_action == params.recommended_action,
            r.pii_type == params.pii_type,
            !r.remediated,
            !r.ignored,
            !r.still_present_after_remediation,
            r.found_at == found_at,
            r.matched_value == params.matched_value,
            r.line_number == stored_line_opt(params.line_number),
    {
        let line_number = line_number_to_db(params.line_number);
        DiscoveryFinding {
            id: new_v4_string(),
            vault_id: params.vault_id,
            source: params.source,
            source_detail: params.source_detail,
            finding_type: params.finding_type,
            risk_level: params.risk_level,
            description: params.description,
            recommended_action: params.recommended_action,
            pii_type: params.pii_type,
            remediated: false,
            ignored: false,
            still_present_after_remediation: false,
            found_at,
            matched_value: params.matched_value,
            line_number,
        }
    }
}

/// Reconciling is done once: a finding that was reconciled needs no
/// further mark when it is found again.
pub proof fn law_reconcile_marks_once(f: DiscoveryFinding)
    ensures
        needs_still_present_mark(f) ==> !needs_still_present_mark(
            DiscoveryFinding { still_present_after_remediation: true, ..f },
        ),
{
}

/// The key under which a finding is stored once: its vault, its location in
/// the source and its PII type.
pub open spec fn finding_key(f: DiscoveryFinding) -> (Seq<char>, Seq<char>, Seq<char>) {
    (f.vault_id@, f.source_detail@, f.pii_type@)
}

/// The key a new finding would be stored under.
pub open spec fn params_key(p: CreateDiscoveryFinding) -> (Seq<char>, Seq<char>, Seq<char>) {
    (p.vault_id@, p.source_detail@, p.pii_type@)
}

/// No two rows of the findings table share a key.
pub open spec fn keys_unique(t: Seq<DiscoveryFinding>) -> bool {
    forall|i: int, j: int|
        0 <= i < t.len() && 0 <= j < t.len() && i != j ==> finding_key(#[trigger] t[i]) != finding_key(
            #[trigger] t[j],
        )
}

/// No two rows of the findings table share an identifier.
pub open spec fn ids_unique(t: Seq<DiscoveryFinding>) -> bool {
    forall|i: int, j: int| 0 <= i < t.len() && 0 <= j < t.len() && i != j ==> (#[trigger] t[i]).id != (#[trigger] t[j]).id
}

/// The stored row with the key of `p`, if there is one.
pub open spec fn stored_finding(t: Seq<DiscoveryFinding>, p: CreateDiscoveryFinding) -> Option<DiscoveryFinding> {
    if exists|i: int| 0 <= i < t.len() && finding_key(#[trigger] t[i]) == params_key(p) {
        Some(t[choose|i: int| 0 <= i < t.len() && finding_key(#[trigger] t[i]) == params_key(p)])
    } else {
        None
    }
}

/// What recording a finding writes to the findings table.
pub enum FindingWrite {
    /// Nothing: the stored row is the answer
    Keep,
    /// Set the still-present flag of the stored row with this identifier
    MarkStillPresent(String),
    /// Insert the new finding as a row
    Insert,
}

/// The stored row marked as still present after remediation.
pub open spec fn marked(f: DiscoveryFinding) -> DiscoveryFinding {
    DiscoveryFinding { still_present_after_remediation: true, ..f }
}

/// `f` is the new finding recorded for `p` at `found_at`.
pub open spec fn created_from(f: DiscoveryFinding, p: CreateDiscoveryFinding, found_at: String) -> bool {
    &&& is_uuid_v4(f.id@)
    &&& f.vault_id == p.vault_id
    &&& f.source == p.source
    &&& f.source_detail == p.source_detail
    &&& f.finding_type == p.finding_type
    &&& f.risk_level == p.risk_level
    &&& f.description == p.description
    &&& f.recommended_action == p.recommended_action
    &&& f.pii_type == p.pii_type
    &&& !f.remediated
    &&& !f.ignored
    &&& !f.still_present_after_remediation
    &&& f.found_at == found_at
    &&& f.matched_value == p.matched_value
    &&& f.line_number == stored_line_opt(p.line_number)
}

/// Recording `p` against the stored row `existing` (if any) answers `f`
/// and writes `w`: the stored row, marked as still present when it was
/// remediated; else a new row.
pub open spec fn finding_recorded(
    existing: Option<DiscoveryFinding>,
    p: CreateDiscoveryFinding,
    found_at: String,
    f: DiscoveryFinding,
    w: FindingWrite,
) -> bool {
    match existing {
        Some(e) => if needs_still_present_mark(e) {
            f == marked(e) && w == FindingWrite::MarkStillPresent(e.id)
        } else {
            f == e && w == FindingWrite::Keep
        },
        None => created_from(f, p, found_at) && w == FindingWrite::Insert,
    }
}

/// The findings table after the write `w` made in recording `f`.
pub open spec fn apply_write(t: Seq<DiscoveryFinding>, f: DiscoveryFinding, w: FindingWrite) -> Seq<DiscoveryFinding> {
    match w {
        FindingWrite::Keep => t,
        FindingWrite::MarkStillPresent(id) => t.map_values(
            |r: DiscoveryFinding| if r.id == id { marked(r) } else { r },
        ),
        FindingWrite::Insert => t.push(f),
    }
}

/// Records a finding for `params` given the stored row with the same key,
/// if any (`found_at` is the time of a new finding): the stored finding is
/// reconciled and returned, with the flag to write when it is marked; a new
/// finding is returned to be inserted.
pub fn record_finding(existing: Option<DiscoveryFinding>, params: CreateDiscoveryFinding, found_at: String) -> (r: (
    DiscoveryFinding,
    FindingWrite,
))
    ensures
        finding_recorded(existing, params, found_at, r.0, r.1),
{
    match existing {
        Some(e) => {
            let (f, needs_update) = e.reconcile_rescan();
            if needs_update {
                let id = f.id.clone();
                (f, FindingWrite::MarkStillPresent(id))
            } else {
                (f, FindingWrite::Keep)
            }
        },
        None => (DiscoveryFinding::create(params, found_at), FindingWrite::Insert),
    }
}

/// A finding is stored once per key: recording one against the table's
/// stored row for its key keeps every key on one row, leaves the answer
/// stored under that key, and adds a row only when none had the key. So
/// recording the same finding again never adds a second row.
pub proof fn law_finding_stored_once(
    t: Seq<DiscoveryFinding>,
    p: CreateDiscoveryFinding,
    found_at: String,
    f: DiscoveryFinding,
    w: FindingWrite,
)
    requires
        keys_unique(t),
        ids_unique(t),
        finding_recorded(stored_finding(t, p), p, found_at, f, w),
    ensures
        keys_unique(apply_write(t, f, w)),
        finding_key(f) == params_key(p),
        apply_write(t, f, w).contains(f),
        apply_write(t, f, w).len() == t.len() + if stored_finding(t, p) is Some { 0int } else { 1int },
{
    let t2 = apply_write(t, f, w);
    match stored_finding(t, p) {
        Some(e) => {
            let i = choose|i: int| 0 <= i < t.len() && finding_key(#[trigger] t[i]) == params_key(p);
            assert(e == t[i]);
            if needs_still_present_mark(e) {
                assert(t2[i] == marked(t[i]));
                assert(forall|k: int| 0 <= k < t.len() ==> finding_key(#[trigger] t2[k]) == finding_key(t[k]));
            } else {
                assert(t2[i] == f);
            }
            assert(t2[i] == f);
        },
        None => {
            assert(t2.last() == f);
            assert(forall|k: int| 0 <= k < t.len() ==> finding_key(#[trigger] t[k]) != params_key(p));
            assert(forall|k: int| 0 <= k < t.len() ==> #[trigger] t2[k] == t[k]);
        },
    }
}

impl RemovalFollowup {
    /// The follow-up held by a row of its table, column by column.
    pub fn from_row(
        r: (String, String, String, String, String, Option<String>, Option<String>, Option<String>),
    ) -> (f: RemovalFollowup)
        ensures
            f.id == r.0,
            f.attempt_id == r.1,
            f.broker_id == r.2,
            f.recipient == r.3,
            f.follow_up_at == r.4,
            f.sent_at == r.5,
            f.dismissed_at == r.6,
            f.method == r.7,
    {
        RemovalFollowup {
            id: r.0,
            attempt_id: r.1,
            broker_id: r.2,
            recipient: r.3,
            follow_up_at: r.4,
            sent_at: r.5,
            dismissed_at: r.6,
            method: r.7,
        }
    }
}

impl ScanSession {
    /// Whether a session given this status is complete and gets a
    /// completion time: any status but "running".
    pub fn is_finished_status(status: &str) -> (r: bool)
        ensures
            r == (status@ != "running"@),
    {
        !str_eq(status, "running")
    }
}

/// The placeholder list of a query's `NOT IN (...)`: `n` question marks
/// separated by ", ".
pub open spec fn placeholders_spec(n: nat) -> Seq<char> {
    join_with(Seq::new(n, |i: int| "?"@), ", "@)
}

/// Builds the placeholder list for `n` excluded values.
pub fn placeholders(n: usize) -> (r: String)
    ensures
        r@ == placeholders_spec(n as nat),
{
    if n == 0 {
        assert(Seq::new(0, |i: int| "?"@) =~= Seq::<Seq<char>>::empty());
        return String::new();
    }
    let mut r = "?".to_string();
    let mut k: usize = 1;
    assert(Seq::new(1, |i: int| "?"@) =~= seq!["?"@]);
    while k < n
        invariant
            1 <= k <= n,
            r@ == join_with(Seq::new(k as nat, |i: int| "?"@), ", "@),
        decreases n - k,
    {
        let ghost parts = Seq::new((k + 1) as nat, |i: int| "?"@);
        assert(parts.drop_last() =~= Seq::new(k as nat, |i: int| "?"@));
        r = concat_strs(r.as_str(), ", ?");
        assert(", ?"@ =~= ", "@ + "?"@) by {
            reveal_strlit(", ?");
            reveal_strlit(", ");
            reveal_strlit("?");
        }
        k += 1;
    }
    r
}

} // verus!
