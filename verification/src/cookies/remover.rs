//! Cookie removal: which table holds a browser's cookies, and the tally of
//! what the deletions did.

use vstd::prelude::*;
use crate::cookies::Cookie;
use crate::cookies::browser::{browser_type_name, BrowserProfile, BrowserType, TargetOs};
use crate::cookies::error::CookieError;
use crate::text::concat_strs;

verus! {

/// Result of a cookie removal operation.
#[derive(Debug)]
pub struct RemovalResult {
    /// The browser
    pub browser_type: BrowserType,
    /// The profile
    pub profile_name: String,
    /// Number of cookies removed
    pub cookies_removed: usize,
    /// Number of cookies that could not be removed
    pub cookies_failed: usize,
    /// Where the database was backed up, if it was
    pub backup_path: Option<String>,
    /// What went wrong, one message per failed cookie
    pub errors: Vec<String>,
}

/// Cookie remover that deletes cookies from browser databases, by default
/// after backing the database up.
#[derive(Debug, Clone, Copy)]
pub struct CookieRemover {
    create_backup: bool,
}

/// The table and host column of a browser's cookie database.
pub open spec fn cookie_table_spec(b: BrowserType) -> Option<(&'static str, &'static str)> {
    match b {
        BrowserType::Chrome | BrowserType::Edge | BrowserType::Brave => Some(("cookies", "host_key")),
        BrowserType::Firefox => Some(("moz_cookies", "host")),
        _ => None,
    }
}

/// A Chromium-based browser: Chrome, Edge or Brave.
pub open spec fn is_chromium_based(b: BrowserType) -> bool {
    b == BrowserType::Chrome || b == BrowserType::Edge || b == BrowserType::Brave
}

/// Every Chromium-based browser keeps its cookies in the `cookies` table,
/// keyed by `host_key`; Firefox alone uses `moz_cookies` keyed by `host`;
/// no other browser has a table cookies are removed from.
pub proof fn law_cookie_tables(b: BrowserType)
    ensures
        is_chromium_based(b) ==> cookie_table_spec(b) == Some(("cookies", "host_key")),
        b == BrowserType::Firefox ==> cookie_table_spec(b) == Some(("moz_cookies", "host")),
        !is_chromium_based(b) && b != BrowserType::Firefox ==> cookie_table_spec(b) is None,
{
}

/// Chromium-based browsers share one table: removing cookies from any of
/// them asks for the same statement.
pub proof fn law_chromium_browsers_share_table(b1: BrowserType, b2: BrowserType)
    requires
        is_chromium_based(b1),
        is_chromium_based(b2),
    ensures
        cookie_table_spec(b1) == cookie_table_spec(b2),
        cookie_table_spec(b1) != cookie_table_spec(BrowserType::Firefox),
{
    reveal_strlit("cookies");
    reveal_strlit("moz_cookies");
    assert("cookies"@ != "moz_cookies"@) by {
        assert("cookies"@.len() != "moz_cookies"@.len());
    }
}

/// The count removed by the deletions: the rows each successful deletion
/// affected.
pub open spec fn removed_total(outcomes: Seq<Result<usize, String>>) -> int
    decreases outcomes.len(),
{
    if outcomes.len() == 0 {
        0
    } else {
        removed_total(outcomes.drop_last()) + match outcomes.last() {
            Ok(n) => n as int,
            Err(_) => 0,
        }
    }
}

/// Whether a deletion failed: it errored or affected no row.
pub open spec fn deletion_failed(o: Result<usize, String>) -> bool {
    match o {
        Ok(n) => n == 0,
        Err(_) => true,
    }
}

/// The number of failed deletions.
pub open spec fn failed_total(outcomes: Seq<Result<usize, String>>) -> nat
    decreases outcomes.len(),
{
    if outcomes.len() == 0 {
        0
    } else {
        failed_total(outcomes.drop_last()) + if deletion_failed(outcomes.last()) { 1nat } else { 0nat }
    }
}

/// The message for a cookie whose deletion failed.
pub open spec fn failure_message(c: Cookie, o: Result<usize, String>) -> Seq<char> {
    match o {
        Ok(_) => "Cookie not found: "@ + c.name@ + " @ "@ + c.domain@,
        Err(e) => "Failed to remove "@ + c.name@ + " @ "@ + c.domain@ + ": "@ + e@,
    }
}

/// The messages of the failed deletions, in order.
pub open spec fn failure_messages(cs: Seq<Cookie>, outcomes: Seq<Result<usize, String>>) -> Seq<Seq<char>>
    decreases outcomes.len(),
{
    if outcomes.len() == 0 || cs.len() != outcomes.len() {
        Seq::empty()
    } else {
        let rest = failure_messages(cs.drop_last(), outcomes.drop_last());
        if deletion_failed(outcomes.last()) {
            rest.push(failure_message(cs.last(), outcomes.last()))
        } else {
            rest
        }
    }
}

/// The message of one failed deletion.
fn describe_failure(c: &Cookie, o: &Result<usize, String>) -> (r: String)
    ensures
        r@ == failure_message(*c, *o),
{
    match o {
        Ok(_) => {
            let a = concat_strs("Cookie not found: ", c.name.as_str());
            let b = concat_strs(a.as_str(), " @ ");
            concat_strs(b.as_str(), c.domain.as_str())
        },
        Err(e) => {
            let a = concat_strs("Failed to remove ", c.name.as_str());
            let b = concat_strs(a.as_str(), " @ ");
            let d = concat_strs(b.as_str(), c.domain.as_str());
            let f = concat_strs(d.as_str(), ": ");
            concat_strs(f.as_str(), e.as_str())
        },
    }
}

impl CookieRemover {
    /// A remover that backs databases up before changing them.
    pub fn new() -> (r: Self)
        ensures
            r.backs_up(),
    {
        CookieRemover { create_backup: true }
    }

    /// A remover that changes databases without a backup (dangerous).
    pub fn without_backup() -> (r: Self)
        ensures
            !r.backs_up(),
    {
        CookieRemover { create_backup: false }
    }

    /// Whether databases are backed up before a change.
    pub closed spec fn backs_up(self) -> bool {
        self.create_backup
    }

    /// Whether databases are backed up before a change.
    pub fn creates_backup(&self) -> (r: bool)
        ensures
            r == self.backs_up(),
    {
        self.create_backup
    }

    /// The table and host column holding a browser's cookies; `None` for
    /// browsers whose databases cannot be changed.
    pub fn cookie_table(browser_type: BrowserType) -> (r: Option<(&'static str, &'static str)>)
        ensures
            r == cookie_table_spec(browser_type),
    {
        match browser_type {
            BrowserType::Chrome | BrowserType::Edge | BrowserType::Brave => Some(("cookies", "host_key")),
            BrowserType::Firefox => Some(("moz_cookies", "host")),
            _ => None,
        }
    }

    /// The error given when cookies are to be removed while the browser
    /// runs: `BrowserRunning` with the browser's name.
    pub fn browser_running_error(browser_type: BrowserType) -> (r: CookieError)
        ensures
            r matches CookieError::BrowserRunning(m) && m@ == browser_type_name(browser_type)@,
    {
        CookieError::BrowserRunning(browser_type.as_str().to_string())
    }

    /// The outcome of a removal once the backup is known: a success records
    /// where the database was backed up; a failure is passed on as it is.
    pub fn with_backup(
        result: Result<RemovalResult, CookieError>,
        backup_path: Option<String>,
    ) -> (r: Result<RemovalResult, CookieError>)
        ensures
            result is Ok ==> (r matches Ok(v) && v == (RemovalResult {
                backup_path,
                ..result->Ok_0
            })),
            result is Err ==> r == result,
    {
        match result {
            Ok(mut v) => {
                v.backup_path = backup_path;
                Ok(v)
            },
            Err(e) => Err(e),
        }
    }

    /// Why cookies cannot be removed one by one from a browser on `os`, if
    /// they cannot.
    pub fn unsupported_for_removal(browser_type: BrowserType, os: TargetOs) -> (r: Option<CookieError>)
        ensures
            cookie_table_spec(browser_type) is Some ==> r is None,
            cookie_table_spec(browser_type) is None ==> (r matches Some(e) && unsupported_removal_error(
                browser_type,
                os,
                e,
            )),
    {
        match browser_type {
            BrowserType::Safari => match os {
                TargetOs::MacOs => Some(CookieError::ParseError("Safari cookie removal not yet implemented".to_string())),
                _ => Some(CookieError::BrowserNotFound("Safari only supported on macOS".to_string())),
            },
            BrowserType::Other => Some(CookieError::BrowserNotFound("Unsupported browser type".to_string())),
            _ => None,
        }
    }

    /// The statement deleting one cookie by name, host and path.
    pub fn delete_cookie_sql(table: &str, host_column: &str) -> (r: String)
        ensures
            r@ == "DELETE FROM "@ + table@ + " WHERE name = ?1 AND "@ + host_column@
                + " = ?2 AND path = ?3"@,
    {
        let a = concat_strs("DELETE FROM ", table);
        let b = concat_strs(a.as_str(), " WHERE name = ?1 AND ");
        let c = concat_strs(b.as_str(), host_column);
        concat_strs(c.as_str(), " = ?2 AND path = ?3")
    }

    /// The statement deleting every cookie whose host ends with a domain.
    pub fn delete_domain_sql(table: &str, host_column: &str) -> (r: String)
        ensures
            r@ == "DELETE FROM "@ + table@ + " WHERE "@ + host_column@ + " LIKE ?1"@,
    {
        let a = concat_strs("DELETE FROM ", table);
        let b = concat_strs(a.as_str(), " WHERE ");
        let c = concat_strs(b.as_str(), host_column);
        concat_strs(c.as_str(), " LIKE ?1")
    }

    /// The LIKE pattern for hosts ending with `domain`.
    pub fn domain_like_pattern(domain: &str) -> (r: String)
        ensures
            r@ == "%"@ + domain@,
    {
        concat_strs("%", domain)
    }

    /// The result of deleting `cookies` one by one from `profile`'s database,
    /// given each deletion's outcome (rows affected, or the error's text).
    pub fn tally_removals(
        profile: &BrowserProfile,
        cookies: &Vec<Cookie>,
        outcomes: &Vec<Result<usize, String>>,
    ) -> (r: RemovalResult)
        requires
            cookies@.len() == outcomes@.len(),
            removed_total(outcomes@) <= usize::MAX,
        ensures
            r.browser_type == profile.browser_type,
            r.profile_name@ == profile.profile_name@,
            r.cookies_removed == removed_total(outcomes@),
            r.cookies_failed == failed_total(outcomes@),
            r.backup_path is None,
            r.errors@.map_values(|s: String| s@) == failure_messages(cookies@, outcomes@),
    {
        let mut removed: usize = 0;
        let mut failed: usize = 0;
        let mut errors: Vec<String> = Vec::new();
        let mut i: usize = 0;
        while i < outcomes.len()
            invariant
                cookies@.len() == outcomes@.len(),
                removed_total(outcomes@) <= usize::MAX,
                i <= outcomes@.len(),
                removed == removed_total(outcomes@.take(i as int)),
                failed == failed_total(outcomes@.take(i as int)),
                failed <= i,
                errors@.map_values(|s: String| s@) == failure_messages(cookies@.take(i as int), outcomes@.take(i as int)),
            decreases outcomes@.len() - i,
        {
            let ghost ot = outcomes@.take(i + 1);
            let ghost ct = cookies@.take(i + 1);
            proof {
                assert(ot.drop_last() =~= outcomes@.take(i as int));
                assert(ct.drop_last() =~= cookies@.take(i as int));
                assert(ot.last() == outcomes@[i as int]);
                assert(ct.last() == cookies@[i as int]);
                lemma_removed_total_prefix(outcomes@, i as int + 1);
            }
            let ghost e0 = errors@;
            match &outcomes[i] {
                Ok(n) => {
                    if *n > 0 {
                        removed = removed + *n;
                    } else {
                        failed = failed + 1;
                        let m = describe_failure(&cookies[i], &outcomes[i]);
                        errors.push(m);
                    }
                },
                Err(_) => {
                    failed = failed + 1;
                    let m = describe_failure(&cookies[i], &outcomes[i]);
                    errors.push(m);
                },
            }
            proof {
                let f = |s: String| s@;
                assert(errors@.map_values(f) =~= failure_messages(ct, ot));
            }
            i += 1;
        }
        assert(outcomes@.take(outcomes@.len() as int) =~= outcomes@);
        assert(cookies@.take(cookies@.len() as int) =~= cookies@);
        RemovalResult {
            browser_type: profile.browser_type,
            profile_name: profile.profile_name.clone(),
            cookies_removed: removed,
            cookies_failed: failed,
            backup_path: None,
            errors,
        }
    }
}

/// The total removed over a prefix never exceeds the total over the whole.
pub proof fn lemma_removed_total_prefix(s: Seq<Result<usize, String>>, k: int)
    requires
        0 <= k <= s.len(),
    ensures
        removed_total(s.take(k)) <= removed_total(s),
        removed_total(s.take(k)) >= 0,
    decreases s.len() - k,
{
    if k < s.len() {
        lemma_removed_total_prefix(s, k + 1);
        assert(s.take(k + 1).drop_last() =~= s.take(k));
    } else {
        assert(s.take(k) =~= s);
    }
    lemma_removed_total_nonneg(s.take(k));
}

/// Totals of rows removed are never negative.
proof fn lemma_removed_total_nonneg(s: Seq<Result<usize, String>>)
    ensures
        removed_total(s) >= 0,
    decreases s.len(),
{
    if s.len() > 0 {
        lemma_removed_total_nonneg(s.drop_last());
    }
}

/// Every cookie either counts towards the removed total or is reported
/// once as a failure: failures and error messages agree in number.
pub proof fn law_failures_are_reported(cs: Seq<Cookie>, outcomes: Seq<Result<usize, String>>)
    requires
        cs.len() == outcomes.len(),
    ensures
        failure_messages(cs, outcomes).len() == failed_total(outcomes),
        failed_total(outcomes) <= outcomes.len(),
    decreases outcomes.len(),
{
    if outcomes.len() > 0 {
        law_failures_are_reported(cs.drop_last(), outcomes.drop_last());
    }
}

/// What a cookie removal asks of its caller next.
pub enum RemovalAction {
    /// Find out whether the browser runs, and hand back `Running`.
    CheckRunning(BrowserType),
    /// Back up the database at this path, and hand back `BackedUp` with the
    /// backup's path or the error.
    BackUp(String),
    /// Open the database and run this statement once per cookie, with its
    /// name, host and path; hand back `Deleted` with each run's outcome (rows
    /// affected, or the error's text), or the error opening the database.
    DeleteEach(String),
    /// The removal is over, with this outcome.
    Finish(Result<RemovalResult, CookieError>),
}

/// What the caller of a cookie removal reports back.
pub enum RemovalEvent {
    /// Whether the browser runs
    Running(bool),
    /// The backup's path, or why it failed
    BackedUp(Result<String, CookieError>),
    /// The outcome of each deletion, or the error opening the database
    Deleted(Result<Vec<Result<usize, String>>, CookieError>),
}

/// Where a cookie removal stands.
#[derive(PartialEq, Eq, Structural)]
pub enum RemovalPhase {
    /// Waiting to learn whether the browser runs
    AwaitRunning,
    /// Waiting for the backup
    AwaitBackup,
    /// Waiting for the deletions
    AwaitDeletion,
    /// Over
    Finished,
}

/// The error given on `os` for a browser whose cookies cannot be removed
/// one by one: Safari's removal is not written on macOS and Safari is not
/// there elsewhere; any other browser is unsupported.
pub open spec fn unsupported_removal_error(b: BrowserType, os: TargetOs, e: CookieError) -> bool {
    if b == BrowserType::Safari && os == TargetOs::MacOs {
        e matches CookieError::ParseError(m) && m@ == "Safari cookie removal not yet implemented"@
    } else if b == BrowserType::Safari {
        e matches CookieError::BrowserNotFound(m) && m@ == "Safari only supported on macOS"@
    } else {
        e matches CookieError::BrowserNotFound(m) && m@ == "Unsupported browser type"@
    }
}

/// A removal of cookies from one profile's database: first the check that
/// the browser does not run, then the backup (when the remover makes one),
/// then the deletions from the browser's cookie table, and last the result,
/// which records the backup.
pub struct CookieRemoval {
    create_backup: bool,
    os: TargetOs,
    profile: BrowserProfile,
    cookies: Vec<Cookie>,
    backup_path: Option<String>,
    phase: RemovalPhase,
}

impl CookieRemoval {
    /// Whether this removal backs the database up.
    pub closed spec fn backs_up(&self) -> bool {
        self.create_backup
    }

    /// The system the removal runs on.
    pub closed spec fn os(&self) -> TargetOs {
        self.os
    }

    /// The profile whose cookies are removed.
    pub closed spec fn profile(&self) -> BrowserProfile {
        self.profile
    }

    /// The cookies to remove.
    pub closed spec fn cookies(&self) -> Seq<Cookie> {
        self.cookies@
    }

    /// The backup made so far, if any.
    pub closed spec fn backup(&self) -> Option<Seq<char>> {
        match self.backup_path {
            Some(p) => Some(p@),
            None => None,
        }
    }

    /// Where the removal stands.
    pub closed spec fn phase(&self) -> RemovalPhase {
        self.phase
    }

    /// A backup is awaited only when asked for, and held exactly when one
    /// was asked for and made.
    pub closed spec fn wf(&self) -> bool {
        &&& (self.phase == RemovalPhase::AwaitRunning || self.phase == RemovalPhase::AwaitBackup)
            ==> self.backup_path is None
        &&& self.phase == RemovalPhase::AwaitBackup ==> self.create_backup
        &&& self.phase == RemovalPhase::AwaitDeletion ==> (self.backup_path is Some <==> self.create_backup)
    }

    /// Whether `ev` answers the removal's last action: the event of the
    /// awaited kind, and deletion outcomes one per cookie whose rows add up
    /// within `usize`.
    pub open spec fn accepts(&self, ev: RemovalEvent) -> bool {
        match ev {
            RemovalEvent::Running(_) => self.phase() == RemovalPhase::AwaitRunning,
            RemovalEvent::BackedUp(_) => self.phase() == RemovalPhase::AwaitBackup,
            RemovalEvent::Deleted(Ok(os)) => self.phase() == RemovalPhase::AwaitDeletion && os@.len()
                == self.cookies().len() && removed_total(os@) <= usize::MAX,
            RemovalEvent::Deleted(Err(_)) => self.phase() == RemovalPhase::AwaitDeletion,
        }
    }

    /// What follows the browser check and the backup: the deletions from
    /// the browser's table, or the end for a browser that has none.
    pub open spec fn dispatched(&self, r: RemovalAction) -> bool {
        match cookie_table_spec(self.profile().browser_type) {
            Some((t, h)) => self.phase() == RemovalPhase::AwaitDeletion && (r matches RemovalAction::DeleteEach(
                sql,
            ) && sql@ == "DELETE FROM "@ + t@ + " WHERE name = ?1 AND "@ + h@ + " = ?2 AND path = ?3"@),
            None => self.phase() == RemovalPhase::Finished && (r matches RemovalAction::Finish(Err(e))
                && unsupported_removal_error(self.profile().browser_type, self.os(), e)),
        }
    }

    /// Starts removing `cookies` from `profile`'s database with `remover`:
    /// the first action is to check whether the browser runs.
    pub fn begin(remover: &CookieRemover, profile: BrowserProfile, cookies: Vec<Cookie>, os: TargetOs) -> (r: (
        Self,
        RemovalAction,
    ))
        ensures
            r.0.wf(),
            r.0.os() == os,
            r.0.backs_up() == remover.backs_up(),
            r.0.profile() == profile,
            r.0.cookies() == cookies@,
            r.0.phase() == RemovalPhase::AwaitRunning,
            r.1 == RemovalAction::CheckRunning(profile.browser_type),
    {
        let b = profile.browser_type;
        (
            CookieRemoval {
                create_backup: remover.create_backup,
                os,
                profile,
                cookies,
                backup_path: None,
                phase: RemovalPhase::AwaitRunning,
            },
            RemovalAction::CheckRunning(b),
        )
    }

    /// The deletions, once the browser is known not to run and the backup
    /// (if any) is made.
    fn dispatch(&mut self) -> (r: RemovalAction)
        requires
            old(self).wf(),
            old(self).phase() == RemovalPhase::AwaitDeletion,
        ensures
            final(self).wf(),
            final(self).dispatched(r),
            final(self).os() == old(self).os(),
            final(self).backs_up() == old(self).backs_up(),
            final(self).profile() == old(self).profile(),
            final(self).cookies() == old(self).cookies(),
            final(self).backup() == old(self).backup(),
    {
        match CookieRemover::cookie_table(self.profile.browser_type) {
            Some((table, host)) => RemovalAction::DeleteEach(CookieRemover::delete_cookie_sql(table, host)),
            None => {
                self.phase = RemovalPhase::Finished;
                match CookieRemover::unsupported_for_removal(self.profile.browser_type, self.os) {
                    Some(e) => RemovalAction::Finish(Err(e)),
                    None => RemovalAction::Finish(
                        Err(CookieError::BrowserNotFound("Unsupported browser type".to_string())),
                    ),
                }
            },
        }
    }

    /// Takes the answer to the last action and gives the next one. A running
    /// browser ends the removal with `BrowserRunning`; a failed backup or a
    /// database that does not open ends it with that error; otherwise the
    /// deletions are tallied and the result records the backup, which is
    /// there exactly when the remover makes backups.
    pub fn advance(&mut self, ev: RemovalEvent) -> (r: RemovalAction)
        requires
            old(self).wf(),
            old(self).accepts(ev),
        ensures
            final(self).wf(),
            final(self).os() == old(self).os(),
            final(self).backs_up() == old(self).backs_up(),
            final(self).profile() == old(self).profile(),
            final(self).cookies() == old(self).cookies(),
            r matches RemovalAction::Finish(Ok(v)) ==> (v.backup_path is Some <==> old(self).backs_up()),
            match ev {
                RemovalEvent::Running(true) => final(self).phase() == RemovalPhase::Finished && (r matches RemovalAction::Finish(
                    Err(CookieError::BrowserRunning(m)),
                ) && m@ == browser_type_name(old(self).profile().browser_type)@),
                RemovalEvent::Running(false) => if old(self).backs_up() {
                    final(self).phase() == RemovalPhase::AwaitBackup && (r matches RemovalAction::BackUp(p) && p@
                        == old(self).profile().cookie_db_path@)
                } else {
                    final(self).backup() is None && final(self).dispatched(r)
                },
                RemovalEvent::BackedUp(Err(e)) => final(self).phase() == RemovalPhase::Finished && r
                    == RemovalAction::Finish(Err(e)),
                RemovalEvent::BackedUp(Ok(p)) => final(self).backup() == Some(p@) && final(self).dispatched(r),
                RemovalEvent::Deleted(Err(e)) => final(self).phase() == RemovalPhase::Finished && r
                    == RemovalAction::Finish(Err(e)),
                RemovalEvent::Deleted(Ok(os)) => final(self).phase() == RemovalPhase::Finished && (r matches RemovalAction::Finish(
                    Ok(v),
                ) && v.browser_type == old(self).profile().browser_type && v.profile_name@ == old(
                    self,
                ).profile().profile_name@ && v.cookies_removed == removed_total(os@) && v.cookies_failed
                    == failed_total(os@) && v.errors@.map_values(|s: String| s@) == failure_messages(
                    old(self).cookies(),
                    os@,
                ) && match v.backup_path {
                    Some(b) => old(self).backup() == Some(b@),
                    None => old(self).backup() is None,
                }),
            },
    {
        match ev {
            RemovalEvent::Running(running) => {
                if running {
                    self.phase = RemovalPhase::Finished;
                    RemovalAction::Finish(Err(CookieRemover::browser_running_error(self.profile.browser_type)))
                } else if self.create_backup {
                    self.phase = RemovalPhase::AwaitBackup;
                    RemovalAction::BackUp(self.profile.cookie_db_path.clone())
                } else {
                    self.phase = RemovalPhase::AwaitDeletion;
                    self.dispatch()
                }
            },
            RemovalEvent::BackedUp(Err(e)) => {
                self.phase = RemovalPhase::Finished;
                RemovalAction::Finish(Err(e))
            },
            RemovalEvent::BackedUp(Ok(p)) => {
                self.backup_path = Some(p);
                self.phase = RemovalPhase::AwaitDeletion;
                self.dispatch()
            },
            RemovalEvent::Deleted(Err(e)) => {
                self.phase = RemovalPhase::Finished;
                RemovalAction::Finish(Err(e))
            },
            RemovalEvent::Deleted(Ok(outcomes)) => {
                self.phase = RemovalPhase::Finished;
                let tally = CookieRemover::tally_removals(&self.profile, &self.cookies, &outcomes);
                let backup = clone_opt(&self.backup_path);
                RemovalAction::Finish(CookieRemover::with_backup(Ok(tally), backup))
            },
        }
    }
}

/// A copy of an optional string.
fn clone_opt(o: &Option<String>) -> (r: Option<String>)
    ensures
        match (r, *o) {
            (Some(a), Some(b)) => a@ == b@,
            (None, None) => true,
            _ => false,
        },
{
    match o {
        Some(s) => Some(s.clone()),
        None => None,
    }
}

impl Default for CookieRemover {
    fn default() -> (r: Self)
        ensures
            r.backs_up(),
    {
        Self::new()
    }
}

} // verus!
