//! Statuses of findings, removals, scans and map blur requests, and their
//! text forms.

use vstd::prelude::*;
use crate::text::{str_eq, concat_strs};

verus! {

/// Verification status of a finding.
#[derive(Debug, Clone, Copy, PartialEq, Eq, Structural)]
pub enum VerificationStatus {
    /// Awaiting user verification
    PendingVerification,
    /// User confirmed this is their information
    Confirmed,
    /// User rejected this as not their information
    Rejected,
}

/// The text of a verification status.
pub open spec fn verification_text(s: VerificationStatus) -> Seq<char> {
    match s {
        VerificationStatus::PendingVerification => "PendingVerification"@,
        VerificationStatus::Confirmed => "Confirmed"@,
        VerificationStatus::Rejected => "Rejected"@,
    }
}

impl VerificationStatus {
    /// Reads a status: `Confirmed` and `Rejected` exactly, anything else is
    /// pending.
    pub fn parse(s: &str) -> (r: Self)
        ensures
            r == (if s@ == "Confirmed"@ {
                VerificationStatus::Confirmed
            } else if s@ == "Rejected"@ {
                VerificationStatus::Rejected
            } else {
                VerificationStatus::PendingVerification
            }),
    {
        if str_eq(s, "Confirmed") {
            VerificationStatus::Confirmed
        } else if str_eq(s, "Rejected") {
            VerificationStatus::Rejected
        } else {
            VerificationStatus::PendingVerification
        }
    }

    /// The text of the status (as displayed and stored).
    pub fn to_text(&self) -> (r: String)
        ensures
            r@ == verification_text(*self),
    {
        match self {
            VerificationStatus::PendingVerification => "PendingVerification".to_string(),
            VerificationStatus::Confirmed => "Confirmed".to_string(),
            VerificationStatus::Rejected => "Rejected".to_string(),
        }
    }
}

/// Reading the text of a verification status gives the status back.
pub proof fn law_verification_roundtrip(s: VerificationStatus)
    ensures
        (if verification_text(s) == "Confirmed"@ {
            VerificationStatus::Confirmed
        } else if verification_text(s) == "Rejected"@ {
            VerificationStatus::Rejected
        } else {
            VerificationStatus::PendingVerification
        }) == s,
{
    reveal_strlit("PendingVerification");
    reveal_strlit("Confirmed");
    reveal_strlit("Rejected");
    assert("PendingVerification"@.len() != "Confirmed"@.len());
    assert("PendingVerification"@.len() != "Rejected"@.len());
    assert("Confirmed"@.len() != "Rejected"@.len());
}

/// Status of a Google removal request.
#[derive(Debug, Clone, Copy, PartialEq, Eq, Structural)]
pub enum GoogleRemovalStatus {
    /// URL has been generated but not yet submitted
    URLGenerated,
    /// User has reported submitting to Google
    Submitted,
    /// User has reported the removal is complete
    Completed,
    /// Request failed or was rejected
    Failed,
}

/// The stored text of a Google removal status.
pub open spec fn google_status_text(s: GoogleRemovalStatus) -> &'static str {
    match s {
        GoogleRemovalStatus::URLGenerated => "URLGenerated",
        GoogleRemovalStatus::Submitted => "Submitted",
        GoogleRemovalStatus::Completed => "Completed",
        GoogleRemovalStatus::Failed => "Failed",
    }
}

/// What reading a stored Google removal status yields.
pub open spec fn google_status_parse(s: Seq<char>) -> Result<GoogleRemovalStatus, Seq<char>> {
    if s == "URLGenerated"@ {
        Ok(GoogleRemovalStatus::URLGenerated)
    } else if s == "Submitted"@ {
        Ok(GoogleRemovalStatus::Submitted)
    } else if s == "Completed"@ {
        Ok(GoogleRemovalStatus::Completed)
    } else if s == "Failed"@ {
        Ok(GoogleRemovalStatus::Failed)
    } else {
        Err("Invalid GoogleRemovalStatus: "@ + s)
    }
}

impl GoogleRemovalStatus {
    /// Reads a stored status; anything but the four names is an error.
    pub fn from_str(s: &str) -> (r: Result<Self, String>)
        ensures
            match (r, google_status_parse(s@)) {
                (Ok(a), Ok(b)) => a == b,
                (Err(e), Err(t)) => e@ == t,
                _ => false,
            },
    {
        if str_eq(s, "URLGenerated") {
            Ok(GoogleRemovalStatus::URLGenerated)
        } else if str_eq(s, "Submitted") {
            Ok(GoogleRemovalStatus::Submitted)
        } else if str_eq(s, "Completed") {
            Ok(GoogleRemovalStatus::Completed)
        } else if str_eq(s, "Failed") {
            Ok(GoogleRemovalStatus::Failed)
        } else {
            Err(concat_strs("Invalid GoogleRemovalStatus: ", s))
        }
    }

    /// The stored text of the status.
    pub fn as_str(&self) -> (r: &'static str)
        ensures
            r == google_status_text(*self),
    {
        match self {
            GoogleRemovalStatus::URLGenerated => "URLGenerated",
            GoogleRemovalStatus::Submitted => "Submitted",
            GoogleRemovalStatus::Completed => "Completed",
            GoogleRemovalStatus::Failed => "Failed",
        }
    }
}

/// Reading the stored text of a Google removal status gives the status back.
pub proof fn law_google_status_roundtrip(s: GoogleRemovalStatus)
    ensures
        google_status_parse(google_status_text(s)@) == Ok::<GoogleRemovalStatus, Seq<char>>(s),
{
    reveal_strlit("URLGenerated");
    reveal_strlit("Submitted");
    reveal_strlit("Completed");
    reveal_strlit("Failed");
    assert("URLGenerated"@.len() == 12 && "Submitted"@.len() == 9 && "Completed"@.len() == 9
        && "Failed"@.len() == 6);
    assert("Submitted"@[0] != "Completed"@[0]);
}

/// Map service provider for address blurring requests.
#[derive(Debug, Clone, Copy, PartialEq, Eq, Structural)]
pub enum MapService {
    /// Google Maps Street View
    GoogleMaps,
    /// Apple Maps Look Around
    AppleMaps,
    /// Bing Maps Streetside
    BingMaps,
}

/// The text of a map service.
pub open spec fn map_service_text(s: MapService) -> &'static str {
    match s {
        MapService::GoogleMaps => "GoogleMaps",
        MapService::AppleMaps => "AppleMaps",
        MapService::BingMaps => "BingMaps",
    }
}

/// What reading a map service's text yields.
pub open spec fn map_service_parse(s: Seq<char>) -> Option<MapService> {
    if s == "GoogleMaps"@ {
        Some(MapService::GoogleMaps)
    } else if s == "AppleMaps"@ {
        Some(MapService::AppleMaps)
    } else if s == "BingMaps"@ {
        Some(MapService::BingMaps)
    } else {
        None
    }
}

impl MapService {
    /// The text of the map service.
    pub fn as_str(&self) -> (r: &'static str)
        ensures
            r == map_service_text(*self),
    {
        match self {
            MapService::GoogleMaps => "GoogleMaps",
            MapService::AppleMaps => "AppleMaps",
            MapService::BingMaps => "BingMaps",
        }
    }

    /// Reads a map service from its exact text.
    pub fn from_str(s: &str) -> (r: Result<Self, ()>)
        ensures
            match (r, map_service_parse(s@)) {
                (Ok(a), Some(b)) => a == b,
                (Err(_), None) => true,
                _ => false,
            },
    {
        if str_eq(s, "GoogleMaps") {
            Ok(MapService::GoogleMaps)
        } else if str_eq(s, "AppleMaps") {
            Ok(MapService::AppleMaps)
        } else if str_eq(s, "BingMaps") {
            Ok(MapService::BingMaps)
        } else {
            Err(())
        }
    }
}

/// Reading the text of a map service gives the service back.
pub proof fn law_map_service_roundtrip(s: MapService)
    ensures
        map_service_parse(map_service_text(s)@) == Some(s),
{
    reveal_strlit("GoogleMaps");
    reveal_strlit("AppleMaps");
    reveal_strlit("BingMaps");
    assert("GoogleMaps"@.len() == 10 && "AppleMaps"@.len() == 9 && "BingMaps"@.len() == 8);
}

/// Status of a map blur request.
#[derive(Debug, Clone, Copy, PartialEq, Eq, Structural)]
pub enum MapBlurStatus {
    /// URL has been generated but not yet submitted
    URLGenerated,
    /// User has submitted the request to the service
    Submitted,
    /// Service has completed the blurring
    Completed,
    /// Request failed or was rejected
    Failed,
}

/// The statement that records a new Google removal status. Its
/// parameters, in order: the status text, then the time (for `Submitted`
/// and `Completed`), then the notes (all but `URLGenerated`), then the
/// request's id.
pub open spec fn google_update_sql(s: GoogleRemovalStatus) -> Seq<char> {
    match s {
        GoogleRemovalStatus::Submitted => "UPDATE google_removal_requests SET status = ?, submitted_at = ?, notes = ? WHERE id = ?"@,
        GoogleRemovalStatus::Completed => "UPDATE google_removal_requests SET status = ?, completed_at = ?, notes = ? WHERE id = ?"@,
        GoogleRemovalStatus::Failed => "UPDATE google_removal_requests SET status = ?, notes = ? WHERE id = ?"@,
        GoogleRemovalStatus::URLGenerated => "UPDATE google_removal_requests SET status = ? WHERE id = ?"@,
    }
}

impl GoogleRemovalStatus {
    /// The statement that records this status (see `google_update_sql`).
    pub fn update_sql(&self) -> (r: &'static str)
        ensures
            r@ == google_update_sql(*self),
    {
        match self {
            GoogleRemovalStatus::Submitted => "UPDATE google_removal_requests SET status = ?, submitted_at = ?, notes = ? WHERE id = ?",
            GoogleRemovalStatus::Completed => "UPDATE google_removal_requests SET status = ?, completed_at = ?, notes = ? WHERE id = ?",
            GoogleRemovalStatus::Failed => "UPDATE google_removal_requests SET status = ?, notes = ? WHERE id = ?",
            GoogleRemovalStatus::URLGenerated => "UPDATE google_removal_requests SET status = ? WHERE id = ?",
        }
    }

    /// Whether recording this status also records the time.
    pub fn records_time(&self) -> (r: bool)
        ensures
            r == (*self == GoogleRemovalStatus::Submitted || *self == GoogleRemovalStatus::Completed),
    {
        match self {
            GoogleRemovalStatus::Submitted | GoogleRemovalStatus::Completed => true,
            _ => false,
        }
    }

    /// Whether recording this status also records the notes.
    pub fn records_notes(&self) -> (r: bool)
        ensures
            r == (*self != GoogleRemovalStatus::URLGenerated),
    {
        match self {
            GoogleRemovalStatus::URLGenerated => false,
            _ => true,
        }
    }
}

/// The stored text of a map blur status.
pub open spec fn map_blur_text(s: MapBlurStatus) -> &'static str {
    match s {
        MapBlurStatus::URLGenerated => "URLGenerated",
        MapBlurStatus::Submitted => "Submitted",
        MapBlurStatus::Completed => "Completed",
        MapBlurStatus::Failed => "Failed",
    }
}

/// What reading a stored map blur status yields; unknown texts are `None`
/// (such rows are passed over).
pub open spec fn map_blur_parse(s: Seq<char>) -> Option<MapBlurStatus> {
    if s == "URLGenerated"@ {
        Some(MapBlurStatus::URLGenerated)
    } else if s == "Submitted"@ {
        Some(MapBlurStatus::Submitted)
    } else if s == "Completed"@ {
        Some(MapBlurStatus::Completed)
    } else if s == "Failed"@ {
        Some(MapBlurStatus::Failed)
    } else {
        None
    }
}

impl MapBlurStatus {
    /// The stored text of the status.
    pub fn as_str(&self) -> (r: &'static str)
        ensures
            r == map_blur_text(*self),
    {
        match self {
            MapBlurStatus::URLGenerated => "URLGenerated",
            MapBlurStatus::Submitted => "Submitted",
            MapBlurStatus::Completed => "Completed",
            MapBlurStatus::Failed => "Failed",
        }
    }

    /// Reads a stored status.
    pub fn from_text(s: &str) -> (r: Option<MapBlurStatus>)
        ensures
            r == map_blur_parse(s@),
    {
        if str_eq(s, "URLGenerated") {
            Some(MapBlurStatus::URLGenerated)
        } else if str_eq(s, "Submitted") {
            Some(MapBlurStatus::Submitted)
        } else if str_eq(s, "Completed") {
            Some(MapBlurStatus::Completed)
        } else if str_eq(s, "Failed") {
            Some(MapBlurStatus::Failed)
        } else {
            None
        }
    }
}

/// Reading a stored map blur status gives back the status.
pub proof fn law_map_blur_roundtrip(s: MapBlurStatus)
    ensures
        map_blur_parse(map_blur_text(s)@) == Some(s),
{
    reveal_strlit("URLGenerated");
    reveal_strlit("Submitted");
    reveal_strlit("Completed");
    reveal_strlit("Failed");
    assert("URLGenerated"@.len() == 12 && "Submitted"@.len() == 9 && "Completed"@.len() == 9
        && "Failed"@.len() == 6);
    assert("Submitted"@[0] != "Completed"@[0]);
}

/// The statement that records a new map blur status, with the time and
/// the notes, then the request's id, as parameters; the other statuses are
/// not recorded (`None`).
pub open spec fn map_blur_update_sql(s: MapBlurStatus) -> Option<Seq<char>> {
    match s {
        MapBlurStatus::Submitted => Some("UPDATE map_blur_requests SET status = 'Submitted', submitted_at = ?, notes = ? WHERE id = ?"@),
        MapBlurStatus::Completed => Some("UPDATE map_blur_requests SET status = 'Completed', completed_at = ?, notes = ? WHERE id = ?"@),
        _ => None,
    }
}

impl MapBlurStatus {
    /// The statement that records this status, if it is recorded.
    pub fn update_sql(&self) -> (r: Option<&'static str>)
        ensures
            match (r, map_blur_update_sql(*self)) {
                (Some(a), Some(b)) => a@ == b,
                (None, None) => true,
                _ => false,
            },
    {
        match self {
            MapBlurStatus::Submitted => Some("UPDATE map_blur_requests SET status = 'Submitted', submitted_at = ?, notes = ? WHERE id = ?"),
            MapBlurStatus::Completed => Some("UPDATE map_blur_requests SET status = 'Completed', completed_at = ?, notes = ? WHERE id = ?"),
            _ => None,
        }
    }
}

/// Status of a removal attempt.
#[derive(Debug, Clone, Copy, PartialEq, Eq, Structural)]
pub enum RemovalStatus {
    /// Request is pending submission
    Pending,
    /// Request has been submitted to the broker
    Submitted,
    /// Removal has been completed
    Completed,
    /// Removal request failed
    Failed,
}

/// The text of a removal status.
pub open spec fn removal_status_text(s: RemovalStatus) -> Seq<char> {
    match s {
        RemovalStatus::Pending => "Pending"@,
        RemovalStatus::Submitted => "Submitted"@,
        RemovalStatus::Completed => "Completed"@,
        RemovalStatus::Failed => "Failed"@,
    }
}

/// What a stored removal status reads as: the three other names exactly,
/// anything else pending.
pub open spec fn removal_status_parse(s: Seq<char>) -> RemovalStatus {
    if s == "Submitted"@ {
        RemovalStatus::Submitted
    } else if s == "Completed"@ {
        RemovalStatus::Completed
    } else if s == "Failed"@ {
        RemovalStatus::Failed
    } else {
        RemovalStatus::Pending
    }
}

impl RemovalStatus {
    /// The text of the status (as displayed and stored).
    pub fn to_text(&self) -> (r: String)
        ensures
            r@ == removal_status_text(*self),
    {
        match self {
            RemovalStatus::Pending => "Pending".to_string(),
            RemovalStatus::Submitted => "Submitted".to_string(),
            RemovalStatus::Completed => "Completed".to_string(),
            RemovalStatus::Failed => "Failed".to_string(),
        }
    }

    /// Reads a stored status.
    pub fn parse(s: &str) -> (r: Self)
        ensures
            r == removal_status_parse(s@),
    {
        if str_eq(s, "Submitted") {
            RemovalStatus::Submitted
        } else if str_eq(s, "Completed") {
            RemovalStatus::Completed
        } else if str_eq(s, "Failed") {
            RemovalStatus::Failed
        } else {
            RemovalStatus::Pending
        }
    }
}

/// Reading the text of a removal status gives the status back.
pub proof fn law_removal_status_roundtrip(s: RemovalStatus)
    ensures
        removal_status_parse(removal_status_text(s)) == s,
{
    reveal_strlit("Pending");
    reveal_strlit("Submitted");
    reveal_strlit("Completed");
    reveal_strlit("Failed");
    assert("Pending"@.len() == 7 && "Submitted"@.len() == 9 && "Completed"@.len() == 9
        && "Failed"@.len() == 6);
    assert("Submitted"@[0] != "Completed"@[0]);
}

/// Status of a scan job.
#[derive(Debug, Clone, Copy, PartialEq, Eq, Structural)]
pub enum ScanJobStatus {
    /// Scan is currently in progress
    InProgress,
    /// Scan completed successfully
    Completed,
    /// Scan failed with an error
    Failed,
    /// Scan was cancelled by the user
    Cancelled,
}

/// The text of a scan job status.
pub open spec fn scan_job_status_text(s: ScanJobStatus) -> Seq<char> {
    match s {
        ScanJobStatus::InProgress => "InProgress"@,
        ScanJobStatus::Completed => "Completed"@,
        ScanJobStatus::Failed => "Failed"@,
        ScanJobStatus::Cancelled => "Cancelled"@,
    }
}

/// What a stored scan job status reads as: the three other names exactly,
/// anything else in progress.
pub open spec fn scan_job_status_parse(s: Seq<char>) -> ScanJobStatus {
    if s == "Completed"@ {
        ScanJobStatus::Completed
    } else if s == "Failed"@ {
        ScanJobStatus::Failed
    } else if s == "Cancelled"@ {
        ScanJobStatus::Cancelled
    } else {
        ScanJobStatus::InProgress
    }
}

impl ScanJobStatus {
    /// The text of the status (as displayed and stored).
    pub fn to_text(&self) -> (r: String)
        ensures
            r@ == scan_job_status_text(*self),
    {
        match self {
            ScanJobStatus::InProgress => "InProgress".to_string(),
            ScanJobStatus::Completed => "Completed".to_string(),
            ScanJobStatus::Failed => "Failed".to_string(),
            ScanJobStatus::Cancelled => "Cancelled".to_string(),
        }
    }

    /// Reads a stored status.
    pub fn parse(s: &str) -> (r: Self)
        ensures
            r == scan_job_status_parse(s@),
    {
        if str_eq(s, "Completed") {
            ScanJobStatus::Completed
        } else if str_eq(s, "Failed") {
            ScanJobStatus::Failed
        } else if str_eq(s, "Cancelled") {
            ScanJobStatus::Cancelled
        } else {
            ScanJobStatus::InProgress
        }
    }
}

/// Reading the text of a scan job status gives the status back.
pub proof fn law_scan_job_status_roundtrip(s: ScanJobStatus)
    ensures
        scan_job_status_parse(scan_job_status_text(s)) == s,
{
    reveal_strlit("InProgress");
    reveal_strlit("Completed");
    reveal_strlit("Failed");
    reveal_strlit("Cancelled");
    assert("InProgress"@.len() == 10 && "Completed"@.len() == 9 && "Failed"@.len() == 6
        && "Cancelled"@.len() == 9);
    assert("Completed"@[1] != "Cancelled"@[1]);
}

} // verus!
