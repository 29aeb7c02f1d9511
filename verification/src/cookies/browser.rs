//! Browsers, their profiles, and where they keep their cookie databases on
//! macOS, Linux and Windows.

use vstd::prelude::*;
use crate::cookies::error::CookieError;
use crate::text::{str_eq, str_starts_with, str_ends_with, str_contains, concat_strs, starts_with, ends_with, contains_seq};
use crate::probe::path_exists;
use crate::text::{lowercase, to_lowercase};

verus! {

/// Supported browser types.
#[derive(Debug, Clone, Copy, PartialEq, Eq, Structural)]
pub enum BrowserType {
    /// Google Chrome
    Chrome,
    /// Mozilla Firefox and its forks
    Firefox,
    /// Apple Safari
    Safari,
    /// Microsoft Edge
    Edge,
    /// Brave
    Brave,
    /// Anything else
    Other,
}

/// The name of a browser type.
pub open spec fn browser_type_name(b: BrowserType) -> &'static str {
    match b {
        BrowserType::Chrome => "Chrome",
        BrowserType::Firefox => "Firefox",
        BrowserType::Safari => "Safari",
        BrowserType::Edge => "Edge",
        BrowserType::Brave => "Brave",
        BrowserType::Other => "Other",
    }
}

/// The browser type a name stands for, compared in lowercase; unknown names
/// are `Other`.
pub open spec fn browser_type_from_lower(l: Seq<char>) -> BrowserType {
    if l == "chrome"@ {
        BrowserType::Chrome
    } else if l == "firefox"@ {
        BrowserType::Firefox
    } else if l == "safari"@ {
        BrowserType::Safari
    } else if l == "edge"@ {
        BrowserType::Edge
    } else if l == "brave"@ {
        BrowserType::Brave
    } else {
        BrowserType::Other
    }
}

impl BrowserType {
    /// The name of the browser type.
    pub fn as_str(&self) -> (r: &'static str)
        ensures
            r == browser_type_name(*self),
    {
        match self {
            BrowserType::Chrome => "Chrome",
            BrowserType::Firefox => "Firefox",
            BrowserType::Safari => "Safari",
            BrowserType::Edge => "Edge",
            BrowserType::Brave => "Brave",
            BrowserType::Other => "Other",
        }
    }

    /// Parses a browser name, ignoring case; unknown names give `Other`.
    /// Never fails.
    pub fn from_str(s: &str) -> (r: Result<BrowserType, CookieError>)
        ensures
            r matches Ok(b) && b == browser_type_from_lower(lowercase(s@)),
    {
        let l = to_lowercase(s);
        let l = l.as_str();
        let b = if str_eq(l, "chrome") {
            BrowserType::Chrome
        } else if str_eq(l, "firefox") {
            BrowserType::Firefox
        } else if str_eq(l, "safari") {
            BrowserType::Safari
        } else if str_eq(l, "edge") {
            BrowserType::Edge
        } else if str_eq(l, "brave") {
            BrowserType::Brave
        } else {
            BrowserType::Other
        };
        Ok(b)
    }
}

/// Browser profile information.
#[derive(Debug, Clone)]
pub struct BrowserProfile {
    /// The browser
    pub browser_type: BrowserType,
    /// The profile's name
    pub profile_name: String,
    /// Path of the profile's cookie database
    pub cookie_db_path: String,
    /// Whether this is the browser's default profile
    pub is_default: bool,
}

/// The operating system whose layout, path separators and process names
/// apply.
#[derive(Debug, Clone, Copy, PartialEq, Eq, Structural)]
pub enum TargetOs {
    /// macOS
    MacOs,
    /// Linux
    Linux,
    /// Windows
    Windows,
}

/// Whether `c` separates path components on `os`: `/` everywhere, and `\`
/// on Windows too.
pub open spec fn is_path_separator(c: char, os: TargetOs) -> bool {
    c == '/' || (os == TargetOs::Windows && c == '\\')
}

/// A Windows drive with nothing after it, such as `C:`.
pub open spec fn is_bare_drive(s: Seq<char>) -> bool {
    s.len() == 2 && s[1] == ':' && (('a' <= s[0] && s[0] <= 'z') || ('A' <= s[0] && s[0] <= 'Z'))
}

/// A relative path with no root and no drive, such as the fixed parts the
/// layouts join.
pub open spec fn is_relative_part(part: Seq<char>, os: TargetOs) -> bool {
    (part.len() > 0 ==> !is_path_separator(part[0], os)) && (os == TargetOs::Windows ==> !(part.len() >= 2
        && part[1] == ':' && (('a' <= part[0] && part[0] <= 'z') || ('A' <= part[0] && part[0] <= 'Z'))))
}

/// The separator std's `Path::join` puts in on `os`.
pub open spec fn separator_text(os: TargetOs) -> Seq<char> {
    if os == TargetOs::Windows {
        "\\"@
    } else {
        "/"@
    }
}

/// `base` joined with the relative path `part` as std's `Path::join` does
/// on `os` (for a base that is not a Windows verbatim `\\?\` path): the
/// separator goes between them unless `base` is empty, already ends with a
/// separator, or is a bare Windows drive.
pub open spec fn join_path(base: Seq<char>, part: Seq<char>, os: TargetOs) -> Seq<char> {
    if base.len() == 0 {
        part
    } else if is_path_separator(base.last(), os) {
        base + part
    } else if os == TargetOs::Windows && is_bare_drive(base) {
        base + part
    } else {
        base + separator_text(os) + part
    }
}

/// Joins a relative path onto a base path, on `os`.
pub fn join(base: &str, part: &str, os: TargetOs) -> (r: String)
    requires
        is_relative_part(part@, os),
    ensures
        r@ == join_path(base@, part@, os),
{
    proof {
        reveal_strlit("/");
        reveal_strlit("\\");
    }
    let c = crate::text::to_chars(base);
    let n = c.len();
    if n == 0 {
        return part.to_string();
    }
    let last = c[n - 1];
    let windows = match os {
        TargetOs::Windows => true,
        _ => false,
    };
    if last == '/' || (windows && last == '\\') {
        concat_strs(base, part)
    } else if windows && n == 2 && c[1] == ':' && (('a' <= c[0] && c[0] <= 'z') || ('A' <= c[0] && c[0] <= 'Z')) {
        concat_strs(base, part)
    } else {
        let a = if windows {
            concat_strs(base, "\\")
        } else {
            concat_strs(base, "/")
        };
        concat_strs(a.as_str(), part)
    }
}

/// The newer (Chrome 96+) location of a Chromium profile's cookies.
pub open spec fn new_cookie_path(profile: Seq<char>, os: TargetOs) -> Seq<char> {
    join_path(join_path(profile, "Network"@, os), "Cookies"@, os)
}

/// The older location of a Chromium profile's cookies.
pub open spec fn old_cookie_path(profile: Seq<char>, os: TargetOs) -> Seq<char> {
    join_path(profile, "Cookies"@, os)
}

/// The cookie database a Chromium profile uses, given which of the two
/// locations exist: the newer location first.
pub open spec fn chromium_cookie_choice(profile: Seq<char>, new_exists: bool, old_exists: bool, os: TargetOs) -> Option<Seq<char>> {
    if new_exists {
        Some(new_cookie_path(profile, os))
    } else if old_exists {
        Some(old_cookie_path(profile, os))
    } else {
        None
    }
}

/// Browser detection and database locations.
#[derive(Debug, Clone, Copy)]
pub struct Browser;

/// What was seen of a Chromium profile directory: its name, its path, and
/// whether the newer (`Network/Cookies`) and older (`Cookies`) databases
/// exist.
#[derive(Debug, Clone)]
pub struct ChromiumProbe {
    /// The directory's name
    pub name: String,
    /// The directory's path
    pub path: String,
    /// `Network/Cookies` exists
    pub network_cookies: bool,
    /// `Cookies` exists
    pub cookies: bool,
}

/// What was seen of an entry of a Firefox profiles directory: its name (if
/// valid UTF-8), its path, whether it is a directory and whether it holds
/// `cookies.sqlite`.
#[derive(Debug, Clone)]
pub struct FirefoxProbe {
    /// The entry's name
    pub name: Option<String>,
    /// The entry's path
    pub path: String,
    /// The entry is a directory
    pub is_dir: bool,
    /// `cookies.sqlite` exists in it
    pub cookies_sqlite: bool,
}

/// The cookie database a probed Chromium profile uses, if any.
pub open spec fn probe_cookie_path(p: ChromiumProbe, os: TargetOs) -> Option<Seq<char>> {
    chromium_cookie_choice(p.path@, p.network_cookies, p.cookies, os)
}

/// A profile's plain values: browser, name, database path, default flag.
pub type ProfileView = (BrowserType, Seq<char>, Seq<char>, bool);

/// The plain values of a profile.
pub open spec fn profile_view(p: BrowserProfile) -> ProfileView {
    (p.browser_type, p.profile_name@, p.cookie_db_path@, p.is_default)
}

/// The plain values of profiles.
pub open spec fn profile_views(s: Seq<BrowserProfile>) -> Seq<ProfileView> {
    s.map_values(|p: BrowserProfile| profile_view(p))
}

/// Chrome's additional profiles (`Profile N`) that have a cookie database,
/// in order.
pub open spec fn additional_chrome_profiles(ps: Seq<ChromiumProbe>, os: TargetOs) -> Seq<ProfileView>
    decreases ps.len(),
{
    if ps.len() == 0 {
        Seq::empty()
    } else {
        let p = ps.last();
        additional_chrome_profiles(ps.drop_last(), os) + if starts_with(p.name@, "Profile "@) && probe_cookie_path(p, os) is Some {
            seq![(BrowserType::Chrome, p.name@, probe_cookie_path(p, os)->0, false)]
        } else {
            Seq::empty()
        }
    }
}

/// Chrome's profiles: the default profile when its directory exists, then
/// the additional profiles; when the default directory exists but holds no
/// cookie database, none at all.
pub open spec fn chrome_profiles_spec(default: Option<ChromiumProbe>, others: Seq<ChromiumProbe>, os: TargetOs) -> Seq<ProfileView> {
    match default {
        Some(d) => match probe_cookie_path(d, os) {
            Some(c) => seq![(BrowserType::Chrome, "Default"@, c, true)] + additional_chrome_profiles(others, os),
            None => Seq::empty(),
        },
        None => additional_chrome_profiles(others, os),
    }
}

/// The profiles of a browser detected by its default profile alone (Edge,
/// Brave): that profile, when its directory exists and has a cookie
/// database.
pub open spec fn default_profile_spec(b: BrowserType, default: Option<ChromiumProbe>, os: TargetOs) -> Seq<ProfileView> {
    match default {
        Some(d) => match probe_cookie_path(d, os) {
            Some(c) => seq![(b, "Default"@, c, true)],
            None => Seq::empty(),
        },
        None => Seq::empty(),
    }
}

/// The name shown for a Firefox profile directory: its name, or "Unknown".
pub open spec fn firefox_dir_name(p: FirefoxProbe) -> Seq<char> {
    match p.name {
        Some(n) => n@,
        None => "Unknown"@,
    }
}

/// The Firefox profiles among probed entries: each directory holding
/// `cookies.sqlite`, in order, named by `label` (the directory's name for
/// Firefox, `Fork (name)` for a fork), default when the directory's name
/// contains "default".
pub open spec fn firefox_profiles_spec(ps: Seq<FirefoxProbe>, fork: Option<Seq<char>>, os: TargetOs) -> Seq<ProfileView>
    decreases ps.len(),
{
    if ps.len() == 0 {
        Seq::empty()
    } else {
        let p = ps.last();
        firefox_profiles_spec(ps.drop_last(), fork, os) + if p.is_dir && p.cookies_sqlite {
            seq![(
                BrowserType::Firefox,
                match fork {
                    Some(d) => d + " ("@ + firefox_dir_name(p) + ")"@,
                    None => firefox_dir_name(p),
                },
                join_path(p.path@, "cookies.sqlite"@, os),
                contains_seq(firefox_dir_name(p), "default"@),
            )]
        } else {
            Seq::empty()
        }
    }
}

/// The profiles found by the detections that succeeded, in the order of
/// the detections; a failed detection adds none.
pub open spec fn detected_profiles(outcomes: Seq<Result<Vec<BrowserProfile>, CookieError>>) -> Seq<BrowserProfile>
    decreases outcomes.len(),
{
    if outcomes.len() == 0 {
        Seq::empty()
    } else {
        detected_profiles(outcomes.drop_last()) + match outcomes.last() {
            Ok(v) => v@,
            Err(_) => Seq::empty(),
        }
    }
}

impl Browser {
    /// The Chrome profiles from what was seen of the default profile
    /// directory (`None` when it does not exist) and of the other entries
    /// of Chrome's directory.
    pub fn chrome_profiles(default: Option<ChromiumProbe>, others: Vec<ChromiumProbe>, os: TargetOs) -> (r: Vec<BrowserProfile>)
        ensures
            profile_views(r@) == chrome_profiles_spec(default, others@, os),
    {
        let mut out: Vec<BrowserProfile> = Vec::new();
        match &default {
            Some(d) => match Self::choose_chromium_cookie_path(d.path.as_str(), d.network_cookies, d.cookies, os) {
                Some(c) => {
                    out.push(BrowserProfile {
                        browser_type: BrowserType::Chrome,
                        profile_name: "Default".to_string(),
                        cookie_db_path: c,
                        is_default: true,
                    });
                },
                None => {
                    assert(profile_views(out@) =~= Seq::<ProfileView>::empty());
                    return out;
                },
            },
            None => {},
        }
        let ghost head = profile_views(out@);
        let mut i: usize = 0;
        while i < others.len()
            invariant
                i <= others@.len(),
                profile_views(out@) == head + additional_chrome_profiles(others@.take(i as int), os),
            decreases others@.len() - i,
        {
            let p = &others[i];
            proof {
                assert(others@.take(i + 1).drop_last() =~= others@.take(i as int));
                assert(others@.take(i + 1).last() == others@[i as int]);
            }
            if Self::is_additional_chrome_profile(p.name.as_str()) {
                match Self::choose_chromium_cookie_path(p.path.as_str(), p.network_cookies, p.cookies, os) {
                    Some(c) => {
                        let ghost before = out@;
                        out.push(BrowserProfile {
                            browser_type: BrowserType::Chrome,
                            profile_name: p.name.clone(),
                            cookie_db_path: c,
                            is_default: false,
                        });
                        proof {
                            assert(profile_views(out@) =~= profile_views(before).push(profile_view(out@.last())));
                        }
                    },
                    None => {},
                }
            }
            assert(profile_views(out@) =~= head + additional_chrome_profiles(others@.take(i + 1), os));
            i += 1;
        }
        assert(others@.take(others@.len() as int) =~= others@);
        proof {
            match default {
                Some(d) => {
                    assert(chrome_profiles_spec(default, others@, os) =~= head + additional_chrome_profiles(others@, os));
                },
                None => {
                    assert(head =~= Seq::<ProfileView>::empty());
                    assert(chrome_profiles_spec(default, others@, os) =~= head + additional_chrome_profiles(others@, os));
                },
            }
        }
        out
    }

    /// The profiles of a browser detected by its default profile alone
    /// (Edge, Brave), from what was seen of that directory (`None` when it
    /// does not exist).
    pub fn default_profile(browser_type: BrowserType, default: Option<ChromiumProbe>, os: TargetOs) -> (r: Vec<BrowserProfile>)
        ensures
            profile_views(r@) == default_profile_spec(browser_type, default, os),
    {
        let mut out: Vec<BrowserProfile> = Vec::new();
        match &default {
            Some(d) => match Self::choose_chromium_cookie_path(d.path.as_str(), d.network_cookies, d.cookies, os) {
                Some(c) => {
                    out.push(BrowserProfile {
                        browser_type,
                        profile_name: "Default".to_string(),
                        cookie_db_path: c,
                        is_default: true,
                    });
                },
                None => {},
            },
            None => {},
        }
        assert(profile_views(out@) =~= default_profile_spec(browser_type, default, os));
        out
    }

    /// The Firefox profiles (or, with a display name, those of a Firefox
    /// fork) among the probed entries of a profiles directory.
    pub fn firefox_profiles(entries: Vec<FirefoxProbe>, fork: Option<&str>, os: TargetOs) -> (r: Vec<BrowserProfile>)
        ensures
            profile_views(r@) == firefox_profiles_spec(entries@, match fork {
                Some(d) => Some(d@),
                None => None,
            }, os),
    {
        let ghost fk = match fork {
            Some(d) => Some(d@),
            None => None::<Seq<char>>,
        };
        let mut out: Vec<BrowserProfile> = Vec::new();
        let mut i: usize = 0;
        while i < entries.len()
            invariant
                i <= entries@.len(),
                fk == match fork {
                    Some(d) => Some(d@),
                    None => None::<Seq<char>>,
                },
                profile_views(out@) == firefox_profiles_spec(entries@.take(i as int), fk, os),
            decreases entries@.len() - i,
        {
            let p = &entries[i];
            proof {
                assert(entries@.take(i + 1).drop_last() =~= entries@.take(i as int));
                assert(entries@.take(i + 1).last() == entries@[i as int]);
            }
            if p.is_dir && p.cookies_sqlite {
                proof {
                    reveal_strlit("cookies.sqlite");
                }
                let dir_name = match &p.name {
                    Some(n) => n.clone(),
                    None => "Unknown".to_string(),
                };
                let label = match fork {
                    Some(d) => Self::fork_profile_name(d, dir_name.as_str()),
                    None => dir_name.clone(),
                };
                let ghost before = out@;
                out.push(BrowserProfile {
                    browser_type: BrowserType::Firefox,
                    profile_name: label,
                    cookie_db_path: join(p.path.as_str(), "cookies.sqlite", os),
                    is_default: Self::is_default_firefox_profile(dir_name.as_str()),
                });
                proof {
                    assert(profile_views(out@) =~= profile_views(before).push(profile_view(out@.last())));
                }
            }
            assert(profile_views(out@) =~= firefox_profiles_spec(entries@.take(i + 1), fk, os));
            i += 1;
        }
        assert(entries@.take(entries@.len() as int) =~= entries@);
        out
    }

    /// Gathers the outcomes of the per-browser detections: the profiles of
    /// each one that succeeded, in order; failures are passed over.
    pub fn collect_detected(outcomes: Vec<Result<Vec<BrowserProfile>, CookieError>>) -> (r: Vec<BrowserProfile>)
        ensures
            r@ == detected_profiles(outcomes@),
    {
        let mut profiles: Vec<BrowserProfile> = Vec::new();
        let ghost all = outcomes@;
        for o in it: outcomes
            invariant
                it.seq() == all,
                profiles@ == detected_profiles(all.take(it.index() as int)),
        {
            let ghost k = it.index() as int;
            proof {
                assert(all.take(k + 1).drop_last() =~= all.take(k));
            }
            match o {
                Ok(mut v) => {
                    profiles.append(&mut v);
                },
                Err(_) => {},
            }
        }
        proof {
            assert(all.take(all.len() as int) =~= all);
        }
        profiles
    }

    /// The cookie database of a Chromium profile, given which of its two
    /// locations exist.
    pub fn choose_chromium_cookie_path(profile_path: &str, new_exists: bool, old_exists: bool, os: TargetOs) -> (r: Option<String>)
        ensures
            match (r, chromium_cookie_choice(profile_path@, new_exists, old_exists, os)) {
                (Some(a), Some(b)) => a@ == b,
                (None, None) => true,
                _ => false,
            },
    {
        proof {
            reveal_strlit("Network");
            reveal_strlit("Cookies");
        }
        if new_exists {
            let n = join(profile_path, "Network", os);
            Some(join(n.as_str(), "Cookies", os))
        } else if old_exists {
            Some(join(profile_path, "Cookies", os))
        } else {
            None
        }
    }

    /// The cookie database of a Chromium-based browser profile (Chrome, Edge,
    /// Brave): `Network/Cookies` if it exists, else `Cookies` if it exists.
    pub fn find_chromium_cookie_path(profile_path: &str, os: TargetOs) -> (r: Option<String>)
        ensures
            r matches Some(p) ==> (p@ == new_cookie_path(profile_path@, os) || p@ == old_cookie_path(
                profile_path@,
                os,
            )),
    {
        proof {
            reveal_strlit("Network");
            reveal_strlit("Cookies");
        }
        let n = join(profile_path, "Network", os);
        let new_path = join(n.as_str(), "Cookies", os);
        let old_path = join(profile_path, "Cookies", os);
        let new_exists = path_exists(new_path.as_str());
        let old_exists = path_exists(old_path.as_str());
        let r = Self::choose_chromium_cookie_path(profile_path, new_exists, old_exists, os);
        assert(match (r, chromium_cookie_choice(profile_path@, new_exists, old_exists, os)) {
            (Some(a), Some(b)) => a@ == b,
            (None, None) => true,
            _ => false,
        });
        r
    }

    /// Chrome's base directory under the home directory on `os`.
    pub fn chrome_base_path(home: &str, os: TargetOs) -> (r: String)
        ensures
            r@ == join_path(home@, chrome_dir(os), os),
    {
        proof {
            reveal_strlit("Library/Application Support/Google/Chrome");
            reveal_strlit(".config/google-chrome");
            reveal_strlit("AppData/Local/Google/Chrome/User Data");
        }
        match os {
            TargetOs::MacOs => join(home, "Library/Application Support/Google/Chrome", os),
            TargetOs::Linux => join(home, ".config/google-chrome", os),
            TargetOs::Windows => join(home, "AppData/Local/Google/Chrome/User Data", os),
        }
    }

    /// Firefox's profile directory under the home directory on `os`.
    pub fn firefox_base_path(home: &str, os: TargetOs) -> (r: String)
        ensures
            r@ == join_path(home@, firefox_dir(os), os),
    {
        proof {
            reveal_strlit("Library/Application Support/Firefox/Profiles");
            reveal_strlit(".mozilla/firefox");
            reveal_strlit("AppData/Roaming/Mozilla/Firefox/Profiles");
        }
        match os {
            TargetOs::MacOs => join(home, "Library/Application Support/Firefox/Profiles", os),
            TargetOs::Linux => join(home, ".mozilla/firefox", os),
            TargetOs::Windows => join(home, "AppData/Roaming/Mozilla/Firefox/Profiles", os),
        }
    }

    /// Edge's base directory under the home directory on `os`.
    pub fn edge_base_path(home: &str, os: TargetOs) -> (r: String)
        ensures
            r@ == join_path(home@, edge_dir(os), os),
    {
        proof {
            reveal_strlit("Library/Application Support/Microsoft Edge");
            reveal_strlit(".config/microsoft-edge");
            reveal_strlit("AppData/Local/Microsoft/Edge/User Data");
        }
        match os {
            TargetOs::MacOs => join(home, "Library/Application Support/Microsoft Edge", os),
            TargetOs::Linux => join(home, ".config/microsoft-edge", os),
            TargetOs::Windows => join(home, "AppData/Local/Microsoft/Edge/User Data", os),
        }
    }

    /// Brave's base directory under the home directory on `os`.
    pub fn brave_base_path(home: &str, os: TargetOs) -> (r: String)
        ensures
            r@ == join_path(home@, brave_dir(os), os),
    {
        proof {
            reveal_strlit("Library/Application Support/BraveSoftware/Brave-Browser");
            reveal_strlit(".config/BraveSoftware/Brave-Browser");
            reveal_strlit("AppData/Local/BraveSoftware/Brave-Browser/User Data");
        }
        match os {
            TargetOs::MacOs => join(home, "Library/Application Support/BraveSoftware/Brave-Browser", os),
            TargetOs::Linux => join(home, ".config/BraveSoftware/Brave-Browser", os),
            TargetOs::Windows => join(home, "AppData/Local/BraveSoftware/Brave-Browser/User Data", os),
        }
    }

    /// The base directory of a Firefox fork under the home directory on
    /// `os`.
    pub fn firefox_fork_base_path(home: &str, dir_name: &str, os: TargetOs) -> (r: String)
        ensures
            r@ == join_path(home@, fork_dir(dir_name@, os), os),
    {
        proof {
            reveal_strlit("Library/Application Support/");
            reveal_strlit(".");
            reveal_strlit("AppData/Roaming/");
        }
        let d = match os {
            TargetOs::MacOs => concat_strs("Library/Application Support/", dir_name),
            TargetOs::Linux => concat_strs(".", dir_name),
            TargetOs::Windows => concat_strs("AppData/Roaming/", dir_name),
        };
        join(home, d.as_str(), os)
    }

    /// Where Safari keeps its cookies, under the home directory: only on
    /// macOS.
    pub fn safari_cookie_path(home: &str, os: TargetOs) -> (r: Option<String>)
        ensures
            os == TargetOs::MacOs ==> (r matches Some(p) && p@ == join_path(
                home@,
                "Library/Cookies/Cookies.binarycookies"@,
                os,
            )),
            os != TargetOs::MacOs ==> r is None,
    {
        proof {
            reveal_strlit("Library/Cookies/Cookies.binarycookies");
        }
        match os {
            TargetOs::MacOs => Some(join(home, "Library/Cookies/Cookies.binarycookies", os)),
            _ => None,
        }
    }

    /// Safari's profile, given its cookie file and whether it exists: the
    /// default profile, or `BrowserNotFound("Safari")` when the file is
    /// missing.
    pub fn safari_profiles(cookie_path: String, exists: bool) -> (r: Result<Vec<BrowserProfile>, CookieError>)
        ensures
            exists ==> (r matches Ok(v) && profile_views(v@) == seq![(BrowserType::Safari, "Default"@, cookie_path@, true)]),
            !exists ==> (r matches Err(CookieError::BrowserNotFound(m)) && m@ == "Safari"@),
    {
        if exists {
            let mut v: Vec<BrowserProfile> = Vec::new();
            v.push(BrowserProfile {
                browser_type: BrowserType::Safari,
                profile_name: "Default".to_string(),
                cookie_db_path: cookie_path,
                is_default: true,
            });
            assert(profile_views(v@) =~= seq![(BrowserType::Safari, "Default"@, v@[0].cookie_db_path@, true)]);
            Ok(v)
        } else {
            Err(CookieError::BrowserNotFound("Safari".to_string()))
        }
    }

    /// The Firefox forks looked for: directory name and display name.
    pub fn firefox_forks() -> (r: Vec<(&'static str, &'static str)>)
        ensures
            r@.len() == 5,
            r@[0] == ("zen", "Zen"),
            r@[1] == ("floorp", "Floorp"),
            r@[2] == ("librewolf", "LibreWolf"),
            r@[3] == ("Waterfox", "Waterfox"),
            r@[4] == ("palemoon", "Pale Moon"),
    {
        vec![
            ("zen", "Zen"),
            ("floorp", "Floorp"),
            ("librewolf", "LibreWolf"),
            ("Waterfox", "Waterfox"),
            ("palemoon", "Pale Moon"),
        ]
    }

    /// Whether a directory under Chrome's base directory is an additional
    /// profile (`Profile 1`, `Profile 2`, ...).
    pub fn is_additional_chrome_profile(name: &str) -> (r: bool)
        ensures
            r == starts_with(name@, "Profile "@),
    {
        str_starts_with(name, "Profile ")
    }

    /// Whether a Firefox profile is a default one: its name contains
    /// `default`.
    pub fn is_default_firefox_profile(name: &str) -> (r: bool)
        ensures
            r == contains_seq(name@, "default"@),
    {
        str_contains(name, "default")
    }

    /// The displayed name of a Firefox fork's profile: `Fork (profile)`.
    pub fn fork_profile_name(display_name: &str, profile_name: &str) -> (r: String)
        ensures
            r@ == display_name@ + " ("@ + profile_name@ + ")"@,
    {
        let a = concat_strs(display_name, " (");
        let b = concat_strs(a.as_str(), profile_name);
        concat_strs(b.as_str(), ")")
    }

    /// The process name that shows a browser is running on `os`, if the
    /// browser is looked for there.
    pub fn process_name(browser_type: BrowserType, os: TargetOs) -> (r: Option<&'static str>)
        ensures
            r == process_name_spec(browser_type, os),
    {
        match os {
            TargetOs::MacOs => match browser_type {
                BrowserType::Chrome => Some("Google Chrome"),
                BrowserType::Firefox => Some("Firefox"),
                BrowserType::Safari => Some("Safari"),
                BrowserType::Edge => Some("Microsoft Edge"),
                BrowserType::Brave => Some("Brave Browser"),
                BrowserType::Other => None,
            },
            TargetOs::Linux => match browser_type {
                BrowserType::Chrome => Some("chrome"),
                BrowserType::Firefox => Some("firefox"),
                BrowserType::Edge => Some("msedge"),
                BrowserType::Brave => Some("brave"),
                _ => None,
            },
            TargetOs::Windows => match browser_type {
                BrowserType::Chrome => Some("chrome.exe"),
                BrowserType::Firefox => Some("firefox.exe"),
                BrowserType::Edge => Some("msedge.exe"),
                BrowserType::Brave => Some("brave.exe"),
                _ => None,
            },
        }
    }

    /// How running processes are listed on `os`: `pgrep -x` on macOS and
    /// Linux, `tasklist` on Windows.
    pub fn process_query(os: TargetOs) -> (r: ProcessQuery)
        ensures
            r == (if os == TargetOs::Windows { ProcessQuery::Tasklist } else { ProcessQuery::Pgrep }),
    {
        match os {
            TargetOs::Windows => ProcessQuery::Tasklist,
            _ => ProcessQuery::Pgrep,
        }
    }

    /// The `tasklist` filter for one image name.
    pub fn tasklist_filter(process_name: &str) -> (r: String)
        ensures
            r@ == "IMAGENAME eq "@ + process_name@,
    {
        concat_strs("IMAGENAME eq ", process_name)
    }

    /// Whether `tasklist`'s output shows the process: it names it.
    pub fn tasklist_shows(output: &str, process_name: &str) -> (r: bool)
        ensures
            r == contains_seq(output@, process_name@),
    {
        str_contains(output, process_name)
    }
}

/// How running processes are listed.
#[derive(Debug, Clone, Copy, PartialEq, Eq, Structural)]
pub enum ProcessQuery {
    /// `pgrep -x NAME`, whose success means the process runs
    Pgrep,
    /// `tasklist /FI "IMAGENAME eq NAME"`, whose output names it when it runs
    Tasklist,
}

/// The process name of each browser on each system.
pub open spec fn process_name_spec(b: BrowserType, os: TargetOs) -> Option<&'static str> {
    match os {
        TargetOs::MacOs => match b {
            BrowserType::Chrome => Some("Google Chrome"),
            BrowserType::Firefox => Some("Firefox"),
            BrowserType::Safari => Some("Safari"),
            BrowserType::Edge => Some("Microsoft Edge"),
            BrowserType::Brave => Some("Brave Browser"),
            BrowserType::Other => None,
        },
        TargetOs::Linux => match b {
            BrowserType::Chrome => Some("chrome"),
            BrowserType::Firefox => Some("firefox"),
            BrowserType::Edge => Some("msedge"),
            BrowserType::Brave => Some("brave"),
            _ => None,
        },
        TargetOs::Windows => match b {
            BrowserType::Chrome => Some("chrome.exe"),
            BrowserType::Firefox => Some("firefox.exe"),
            BrowserType::Edge => Some("msedge.exe"),
            BrowserType::Brave => Some("brave.exe"),
            _ => None,
        },
    }
}

/// Chrome's directory under the home directory on each system.
pub open spec fn chrome_dir(os: TargetOs) -> Seq<char> {
    match os {
        TargetOs::MacOs => "Library/Application Support/Google/Chrome"@,
        TargetOs::Linux => ".config/google-chrome"@,
        TargetOs::Windows => "AppData/Local/Google/Chrome/User Data"@,
    }
}

/// Firefox's profiles directory under the home directory on each system.
pub open spec fn firefox_dir(os: TargetOs) -> Seq<char> {
    match os {
        TargetOs::MacOs => "Library/Application Support/Firefox/Profiles"@,
        TargetOs::Linux => ".mozilla/firefox"@,
        TargetOs::Windows => "AppData/Roaming/Mozilla/Firefox/Profiles"@,
    }
}

/// Edge's directory under the home directory on each system.
pub open spec fn edge_dir(os: TargetOs) -> Seq<char> {
    match os {
        TargetOs::MacOs => "Library/Application Support/Microsoft Edge"@,
        TargetOs::Linux => ".config/microsoft-edge"@,
        TargetOs::Windows => "AppData/Local/Microsoft/Edge/User Data"@,
    }
}

/// Brave's directory under the home directory on each system.
pub open spec fn brave_dir(os: TargetOs) -> Seq<char> {
    match os {
        TargetOs::MacOs => "Library/Application Support/BraveSoftware/Brave-Browser"@,
        TargetOs::Linux => ".config/BraveSoftware/Brave-Browser"@,
        TargetOs::Windows => "AppData/Local/BraveSoftware/Brave-Browser/User Data"@,
    }
}

/// A Firefox fork's directory under the home directory on each system.
pub open spec fn fork_dir(dir_name: Seq<char>, os: TargetOs) -> Seq<char> {
    match os {
        TargetOs::MacOs => "Library/Application Support/"@ + dir_name,
        TargetOs::Linux => "."@ + dir_name,
        TargetOs::Windows => "AppData/Roaming/"@ + dir_name,
    }
}

} // verus!
