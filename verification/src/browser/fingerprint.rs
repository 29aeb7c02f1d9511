//! Randomized browser fingerprints.

use vstd::prelude::*;
use rand::Rng;

verus! {

/// Fingerprint configuration for anti-detection.
#[derive(Debug, Clone)]
pub struct FingerprintConfig {
    /// User agent string
    pub user_agent: String,
    /// Viewport width
    pub viewport_width: u32,
    /// Viewport height
    pub viewport_height: u32,
    /// Time zone
    pub timezone: String,
}

/// The common desktop user agents a fingerprint picks from.
pub open spec fn user_agent_choice(i: nat) -> Seq<char> {
    if i == 0 {
        "Mozilla/5.0 (Windows NT 10.0; Win64; x64) AppleWebKit/537.36 (KHTML, like Gecko) Chrome/120.0.0.0 Safari/537.36"@
    } else if i == 1 {
        "Mozilla/5.0 (Macintosh; Intel Mac OS X 10_15_7) AppleWebKit/537.36 (KHTML, like Gecko) Chrome/120.0.0.0 Safari/537.36"@
    } else {
        "Mozilla/5.0 (X11; Linux x86_64) AppleWebKit/537.36 (KHTML, like Gecko) Chrome/120.0.0.0 Safari/537.36"@
    }
}

/// The common viewport sizes a fingerprint picks from.
pub open spec fn viewport_choice(i: nat) -> (u32, u32) {
    if i == 0 {
        (1920, 1080)
    } else if i == 1 {
        (1366, 768)
    } else if i == 2 {
        (1536, 864)
    } else {
        (1440, 900)
    }
}

/// `f` is the fingerprint with user agent `ua` and viewport `vp`, in New
/// York's time zone.
pub open spec fn is_fingerprint(f: FingerprintConfig, ua: nat, vp: nat) -> bool {
    &&& f.user_agent@ == user_agent_choice(ua)
    &&& (f.viewport_width, f.viewport_height) == viewport_choice(vp)
    &&& f.timezone@ == "America/New_York"@
}

/// A uniformly random index below `n` (rand's `thread_rng` and
/// `Rng::gen_range(0..n)`). The source promises only that the value lies in
/// the range; which one comes out rests on chance.
#[verifier::external_body]
fn random_index(n: usize) -> (r: usize)
    requires
        n > 0,
    ensures
        r < n,
{
    rand::thread_rng().gen_range(0..n)
}

impl FingerprintConfig {
    /// The fingerprint with the `ua`-th user agent and the `vp`-th viewport.
    pub fn from_choice(ua: usize, vp: usize) -> (r: Self)
        requires
            ua < 3,
            vp < 4,
        ensures
            is_fingerprint(r, ua as nat, vp as nat),
    {
        let user_agent = if ua == 0 {
            "Mozilla/5.0 (Windows NT 10.0; Win64; x64) AppleWebKit/537.36 (KHTML, like Gecko) Chrome/120.0.0.0 Safari/537.36"
        } else if ua == 1 {
            "Mozilla/5.0 (Macintosh; Intel Mac OS X 10_15_7) AppleWebKit/537.36 (KHTML, like Gecko) Chrome/120.0.0.0 Safari/537.36"
        } else {
            "Mozilla/5.0 (X11; Linux x86_64) AppleWebKit/537.36 (KHTML, like Gecko) Chrome/120.0.0.0 Safari/537.36"
        };
        let (w, h): (u32, u32) = if vp == 0 {
            (1920, 1080)
        } else if vp == 1 {
            (1366, 768)
        } else if vp == 2 {
            (1536, 864)
        } else {
            (1440, 900)
        };
        FingerprintConfig {
            user_agent: user_agent.to_string(),
            viewport_width: w,
            viewport_height: h,
            timezone: "America/New_York".to_string(),
        }
    }

    /// A randomized fingerprint: one of the common user agents and one of
    /// the common viewports, picked at random.
    pub fn randomized() -> (r: Self)
        ensures
            exists|ua: nat, vp: nat| ua < 3 && vp < 4 && is_fingerprint(r, ua, vp),
    {
        let ua = random_index(3);
        let vp = random_index(4);
        let r = Self::from_choice(ua, vp);
        assert(is_fingerprint(r, ua as nat, vp as nat));
        r
    }
}

} // verus!
