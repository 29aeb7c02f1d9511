//! Per-domain rate limiting and the reading of browser launch failures.

use vstd::prelude::*;
use crate::browser::error::BrowserError;
use crate::text::{str_contains, contains_seq, str_eq, concat_strs, lowercase, to_lowercase};

verus! {

/// Rate limiter per domain, over a monotonic clock in milliseconds.
#[derive(Debug)]
pub struct RateLimiter {
    last_access: Vec<(String, u64)>,
    min_delay_ms: u64,
}

/// The keys of a list of (domain, time) records.
pub open spec fn domains_of(s: Seq<(String, u64)>) -> Seq<Seq<char>> {
    s.map_values(|e: (String, u64)| e.0@)
}

/// What `check_and_update` decides for a domain last seen at `last` (if
/// ever) when the clock reads `now`: refused only when the domain was seen
/// less than `min_delay` ago.
pub open spec fn too_soon(last: Option<u64>, now: u64, min_delay: u64) -> bool {
    last matches Some(t) && (if now >= t { now - t } else { 0 }) < min_delay
}

impl View for RateLimiter {
    type V = Map<Seq<char>, u64>;

    closed spec fn view(&self) -> Map<Seq<char>, u64> {
        Map::new(
            |k: Seq<char>| domains_of(self.last_access@).contains(k),
            |k: Seq<char>|
                self.last_access@[choose|i: int|
                    0 <= i < self.last_access@.len() && self.last_access@[i].0@ == k].1,
        )
    }
}

impl RateLimiter {
    /// No domain is recorded twice.
    #[verifier::type_invariant]
    spec fn distinct_domains(self) -> bool {
        domains_of(self.last_access@).no_duplicates()
    }

    /// The minimum delay between two accesses to one domain.
    pub closed spec fn min_delay(self) -> u64 {
        self.min_delay_ms
    }

    /// A limiter with no recorded access and the given minimum delay.
    pub fn new(min_delay_ms: u64) -> (r: Self)
        ensures
            r@ == Map::<Seq<char>, u64>::empty(),
            r.min_delay() == min_delay_ms,
    {
        let r = RateLimiter { last_access: Vec::new(), min_delay_ms };
        assert(domains_of(r.last_access@) =~= Seq::empty());
        assert(r@ =~= Map::<Seq<char>, u64>::empty());
        r
    }

    /// Checks an access to `domain` at time `now_ms`: refused if the domain
    /// was accessed less than the minimum delay ago (nothing is recorded
    /// then); otherwise allowed, and the access is recorded.
    pub fn check_and_update(&mut self, domain: &str, now_ms: u64) -> (r: Result<(), BrowserError>)
        ensures
            final(self).min_delay() == old(self).min_delay(),
            too_soon(
                if old(self)@.contains_key(domain@) { Some(old(self)@[domain@]) } else { None },
                now_ms,
                old(self).min_delay(),
            ) ==> (r matches Err(BrowserError::RateLimitExceeded(d)) && d@ == domain@
                && final(self)@ == old(self)@),
            !too_soon(
                if old(self)@.contains_key(domain@) { Some(old(self)@[domain@]) } else { None },
                now_ms,
                old(self).min_delay(),
            ) ==> (r is Ok && final(self)@ == old(self)@.insert(domain@, now_ms)),
    {
        proof {
            use_type_invariant(&*self);
        }
        let ghost before = self.last_access@;
        let n = self.last_access.len();
        let mut i: usize = 0;
        while i < n && !str_eq(self.last_access[i].0.as_str(), domain)
            invariant
                n == self.last_access@.len(),
                before == self.last_access@,
                i <= n,
                forall|j: int| 0 <= j < i ==> self.last_access@[j].0@ != domain@,
            decreases n - i,
        {
            i += 1;
        }
        if i < n {
            let last = self.last_access[i].1;
            let elapsed = if now_ms >= last { now_ms - last } else { 0 };
            proof {
                assert(domains_of(before)[i as int] == domain@);
                assert(self@.contains_key(domain@));
                let k = choose|k: int| 0 <= k < before.len() && before[k].0@ == domain@;
                assert(domains_of(before)[k] == domains_of(before)[i as int]);
                assert(k == i);
            }
            if elapsed < self.min_delay_ms {
                return Err(BrowserError::RateLimitExceeded(domain.to_string()));
            }
            let mut v: Vec<(String, u64)> = Vec::new();
            std::mem::swap(&mut v, &mut self.last_access);
            let name = domain.to_string();
            v.set(i, (name, now_ms));
            proof {
                let after = v@;
                assert(domains_of(after) =~= domains_of(before));
            }
            self.last_access = v;
            proof {
                let after = self.last_access@;
                assert forall|k: Seq<char>| #[trigger] self@.contains_key(k) implies self@[k] == old(self)@.insert(domain@, now_ms)[k] by {
                    let a = choose|a: int| 0 <= a < after.len() && after[a].0@ == k;
                    if k == domain@ {
                        assert(domains_of(after)[a] == domains_of(after)[i as int]);
                    } else {
                        assert(a != i);
                        assert(before[a].0@ == k);
                        let b = choose|b: int| 0 <= b < before.len() && before[b].0@ == k;
                        assert(domains_of(before)[a] == domains_of(before)[b]);
                    }
                }
                assert(self@ =~= old(self)@.insert(domain@, now_ms));
            }
            Ok(())
        } else {
            proof {
                assert(!self@.contains_key(domain@)) by {
                    if domains_of(before).contains(domain@) {
                        let k = choose|k: int| 0 <= k < domains_of(before).len() && domains_of(before)[k] == domain@;
                        assert(before[k].0@ == domain@);
                    }
                }
            }
            let mut v: Vec<(String, u64)> = Vec::new();
            std::mem::swap(&mut v, &mut self.last_access);
            v.push((domain.to_string(), now_ms));
            proof {
                let after = v@;
                assert(domains_of(after) =~= domains_of(before).push(domain@));
                assert(domains_of(after).no_duplicates()) by {
                    assert forall|a: int, b: int| 0 <= a < b < domains_of(after).len() implies domains_of(after)[a]
                        != domains_of(after)[b] by {
                        if b == domains_of(after).len() - 1 {
                            assert(domains_of(before)[a] == before[a].0@);
                        }
                    }
                }
            }
            self.last_access = v;
            proof {
                let after = self.last_access@;
                assert forall|k: Seq<char>| self@.contains_key(k) <==> old(self)@.insert(domain@, now_ms).contains_key(k) by {
                    if domains_of(after).contains(k) {
                        let a = choose|a: int| 0 <= a < domains_of(after).len() && domains_of(after)[a] == k;
                        if a < before.len() {
                            assert(domains_of(before)[a] == k);
                        }
                    }
                    if domains_of(before).contains(k) {
                        let a = choose|a: int| 0 <= a < domains_of(before).len() && domains_of(before)[a] == k;
                        assert(domains_of(after)[a] == k);
                    }
                    if k == domain@ {
                        assert(domains_of(after)[before.len() as int] == k);
                    }
                }
                assert forall|k: Seq<char>| #[trigger] self@.contains_key(k) implies self@[k] == old(self)@.insert(domain@, now_ms)[k] by {
                    let a = choose|a: int| 0 <= a < after.len() && after[a].0@ == k;
                    if k == domain@ {
                        assert(domains_of(after)[a] == domains_of(after)[before.len() as int]);
                    } else {
                        assert(a < before.len());
                        assert(before[a].0@ == k);
                        let b = choose|b: int| 0 <= b < before.len() && before[b].0@ == k;
                        assert(domains_of(before)[a] == domains_of(before)[b]);
                    }
                }
                assert(self@ =~= old(self)@.insert(domain@, now_ms));
            }
            Ok(())
        }
    }
}

/// The first access to a domain is allowed; an access to the same domain
/// with no time passed is refused when the delay is positive; once the delay
/// has passed it is allowed again; other domains are not affected.
pub proof fn law_rate_limit(m: Map<Seq<char>, u64>, d: Seq<char>, e: Seq<char>, t: u64, later: u64, min_delay: u64)
    requires
        !m.contains_key(d),
        d != e,
        min_delay > 0,
        later >= t,
        later - t >= min_delay,
    ensures
        !too_soon(None, t, min_delay),
        too_soon(Some(m.insert(d, t)[d]), t, min_delay),
        !too_soon(Some(m.insert(d, t)[d]), later, min_delay),
        m.insert(d, t).contains_key(e) == m.contains_key(e),
        m.contains_key(e) ==> m.insert(d, t)[e] == m[e],
{
}

/// The help text for a missing Chrome/Chromium executable.
pub open spec fn install_help() -> Seq<char> {
    "Chrome/Chromium not found. Please install:\nUbuntu/Debian: sudo apt-get install chromium-browser\nFedora: sudo dnf install chromium\nArch: sudo pacman -S chromium\nOr set CHROME_PATH environment variable."@
}

/// The help text for a browser that exited with status 21.
pub open spec fn exit21_help() -> Seq<char> {
    "Chrome failed to launch (exit status 21).\nTry setting CHROME_PATH to your Chrome installation:\nexport CHROME_PATH=/usr/bin/google-chrome"@
}

/// What a launch failure with message `msg` becomes: install help when the
/// executable was not found, launch help on exit status 21, else the message
/// itself.
pub open spec fn launch_error_text(msg: Seq<char>) -> Seq<char> {
    if contains_seq(msg, "Could not auto detect"@) || contains_seq(msg, "chrome executable"@) {
        install_help() + "\nOriginal error: "@ + msg
    } else if contains_seq(msg, "ExitStatus(21)"@) || contains_seq(msg, "ExitStatus(ExitStatus(21))"@) {
        exit21_help() + "\nOriginal error: "@ + msg
    } else {
        msg
    }
}

/// Converts a browser launch failure into a helpful error.
pub fn handle_browser_launch_error(msg: String) -> (r: BrowserError)
    ensures
        r matches BrowserError::ChromiumError(m) && m@ == launch_error_text(msg@),
{
    let m = msg.as_str();
    if str_contains(m, "Could not auto detect") || str_contains(m, "chrome executable") {
        let help = "Chrome/Chromium not found. Please install:\nUbuntu/Debian: sudo apt-get install chromium-browser\nFedora: sudo dnf install chromium\nArch: sudo pacman -S chromium\nOr set CHROME_PATH environment variable.";
        let a = concat_strs(help, "\nOriginal error: ");
        BrowserError::ChromiumError(concat_strs(a.as_str(), m))
    } else if str_contains(m, "ExitStatus(21)") || str_contains(m, "ExitStatus(ExitStatus(21))") {
        let help = "Chrome failed to launch (exit status 21).\nTry setting CHROME_PATH to your Chrome installation:\nexport CHROME_PATH=/usr/bin/google-chrome";
        let a = concat_strs(help, "\nOriginal error: ");
        BrowserError::ChromiumError(concat_strs(a.as_str(), m))
    } else {
        BrowserError::ChromiumError(msg)
    }
}

/// Whether the kernel's version text (`/proc/version`) is that of WSL2:
/// lowercased, it mentions "microsoft" or "wsl".
pub open spec fn is_wsl2_release_spec(release: Seq<char>) -> bool {
    contains_seq(lowercase(release), "microsoft"@) || contains_seq(lowercase(release), "wsl"@)
}

/// Whether the kernel's version text is that of WSL2.
pub fn is_wsl2_release(release: &str) -> (r: bool)
    ensures
        r == is_wsl2_release_spec(release@),
{
    let lower = to_lowercase(release);
    str_contains(lower.as_str(), "microsoft") || str_contains(lower.as_str(), "wsl")
}

/// The arguments the browser is launched with: headless and without GPU,
/// first-run screens, shared memory, extensions or sync; under WSL2 also in
/// a single process, without zygote, muted and without software
/// rasterizing.
pub open spec fn launch_arg_list(wsl2: bool) -> Seq<Seq<char>> {
    seq![
        "--headless"@, "--disable-gpu"@, "--no-first-run"@, "--disable-dev-shm-usage"@,
        "--disable-extensions"@, "--disable-sync"@,
    ] + if wsl2 {
        seq!["--single-process"@, "--no-zygote"@, "--mute-audio"@, "--disable-software-rasterizer"@]
    } else {
        Seq::empty()
    }
}

/// The browser's launch arguments, in order.
pub fn launch_args(wsl2: bool) -> (r: Vec<&'static str>)
    ensures
        r@.len() == launch_arg_list(wsl2).len(),
        forall|i: int| 0 <= i < r@.len() ==> (#[trigger] r@[i])@ == launch_arg_list(wsl2)[i],
{
    let mut r = vec![
        "--headless", "--disable-gpu", "--no-first-run", "--disable-dev-shm-usage",
        "--disable-extensions", "--disable-sync",
    ];
    if wsl2 {
        r.push("--single-process");
        r.push("--no-zygote");
        r.push("--mute-audio");
        r.push("--disable-software-rasterizer");
    }
    r
}

} // verus!
