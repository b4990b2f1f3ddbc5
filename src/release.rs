//! Release checking: reading the latest version out of a releases response,
//! comparing versions, and telling how the editor was installed.

use crate::text::{
    chars_of, contains_chars, contains_seq, find_char, find_chars, is_first_char_from,
    is_first_occurrence, lemma_split_acc_nonempty, parse_u32, parse_u32_spec, split_chars,
    split_on, starts_with_chars, starts_with_seq,
};
use vstd::prelude::*;

verus! {

/// The version of this editor.
pub const CURRENT_VERSION: &'static str = "0.1.0";

/// The releases endpoint that the update check asks by default.
pub const DEFAULT_RELEASES_URL: &'static str = "https://api.github.com/repos/sinelaw/fresh/releases/latest";

/// How the editor was installed.
#[derive(Clone, Copy, Debug, PartialEq, Eq, Structural)]
pub enum InstallMethod {
    Homebrew,
    Cargo,
    Npm,
    /// A Linux package manager (apt, dnf, ...).
    PackageManager,
    /// The Arch User Repository.
    Aur,
    Unknown,
}

/// The outcome of a release check.
#[derive(Clone, Debug)]
pub struct ReleaseCheckResult {
    pub latest_version: String,
    pub update_available: bool,
    pub install_method: InstallMethod,
}

impl InstallMethod {
    /// The command that updates an installation of this kind, if one is known.
    pub fn update_command(&self) -> (r: Option<&'static str>)
        ensures
            r is None <==> *self == InstallMethod::Unknown,
            *self == InstallMethod::Homebrew ==> (r matches Some(c) && c@
                == " brew upgrade fresh-editor"@),
            *self == InstallMethod::Cargo ==> (r matches Some(c) && c@
                == "cargo install --locked fresh-editor"@),
            *self == InstallMethod::Npm ==> (r matches Some(c) && c@
                == "npm update -g @fresh-editor/fresh-editor"@),
            *self == InstallMethod::Aur ==> (r matches Some(c) && c@
                == "yay -Syu fresh-editor  # or use your AUR helper"@),
            *self == InstallMethod::PackageManager ==> (r matches Some(c) && c@
                == "Update using your system package manager"@),
    {
        match self {
            InstallMethod::Homebrew => Some(" brew upgrade fresh-editor"),
            InstallMethod::Cargo => Some("cargo install --locked fresh-editor"),
            InstallMethod::Npm => Some("npm update -g @fresh-editor/fresh-editor"),
            InstallMethod::Aur => Some("yay -Syu fresh-editor  # or use your AUR helper"),
            InstallMethod::PackageManager => Some("Update using your system package manager"),
            InstallMethod::Unknown => None,
        }
    }
}

/// The (major, minor, patch) of a version string: `a.b.c` (anything after a
/// `-` in the third part is a pre-release tag and ignored), or `a.b` with
/// patch 0.
pub open spec fn version_triple(v: Seq<char>) -> Option<(u32, u32, u32)> {
    let parts = split_on(v, '.');
    if parts.len() >= 3 {
        match (
            parse_u32_spec(parts[0]),
            parse_u32_spec(parts[1]),
            parse_u32_spec(split_on(parts[2], '-')[0]),
        ) {
            (Some(a), Some(b), Some(c)) => Some((a, b, c)),
            _ => None,
        }
    } else if parts.len() == 2 {
        match (parse_u32_spec(parts[0]), parse_u32_spec(parts[1])) {
            (Some(a), Some(b)) => Some((a, b, 0u32)),
            _ => None,
        }
    } else {
        None
    }
}

/// Lexicographic order on version triples.
pub open spec fn triple_greater(l: (u32, u32, u32), c: (u32, u32, u32)) -> bool {
    l.0 > c.0 || (l.0 == c.0 && (l.1 > c.1 || (l.1 == c.1 && l.2 > c.2)))
}

pub open spec fn is_newer_spec(current: Seq<char>, latest: Seq<char>) -> bool {
    match (version_triple(current), version_triple(latest)) {
        (Some(c), Some(l)) => triple_greater(l, c),
        _ => false,
    }
}

fn parse_version(v: &str) -> (r: Option<(u32, u32, u32)>)
    ensures
        r == version_triple(v@),
{
    let cs = chars_of(v);
    let parts = split_chars(&cs, '.');
    let ghost pv = parts@.map_values(|p: Vec<char>| p@);
    assert(pv.len() == parts@.len());
    if parts.len() >= 3 {
        assert(pv[0] == parts@[0]@ && pv[1] == parts@[1]@ && pv[2] == parts@[2]@);
        let a = parse_u32(&parts[0]);
        let b = parse_u32(&parts[1]);
        let sub = split_chars(&parts[2], '-');
        proof {
            lemma_split_acc_nonempty(parts@[2]@, '-', 0, Seq::empty());
            let sv = sub@.map_values(|p: Vec<char>| p@);
            assert(sv.len() == sub@.len());
            assert(sv[0] == sub@[0]@);
        }
        let c = parse_u32(&sub[0]);
        match (a, b, c) {
            (Some(a), Some(b), Some(c)) => Some((a, b, c)),
            _ => None,
        }
    } else if parts.len() == 2 {
        assert(pv[0] == parts@[0]@ && pv[1] == parts@[1]@);
        let a = parse_u32(&parts[0]);
        let b = parse_u32(&parts[1]);
        match (a, b) {
            (Some(a), Some(b)) => Some((a, b, 0)),
            _ => None,
        }
    } else {
        None
    }
}

/// Whether `latest` is a newer version than `current`; false when either
/// cannot be read as a version.
pub fn is_newer_version(current: &str, latest: &str) -> (r: bool)
    ensures
        r == is_newer_spec(current@, latest@),
{
    match (parse_version(current), parse_version(latest)) {
        (Some(c), Some(l)) => l.0 > c.0 || (l.0 == c.0 && (l.1 > c.1 || (l.1 == c.1 && l.2
            > c.2))),
        _ => false,
    }
}

pub open spec fn strip_v(t: Seq<char>) -> Seq<char> {
    if t.len() > 0 && t[0] == 'v' {
        t.skip(1)
    } else {
        t
    }
}

/// The value of the first `"tag_name"` key of a releases response, without a
/// leading `v`, or the reason it cannot be found. The value runs from the
/// first `"` after the key to the next `"`.
pub open spec fn tag_name_spec(json: Seq<char>) -> Result<Seq<char>, Seq<char>> {
    let key = "\"tag_name\""@;
    if !contains_seq(json, key) {
        Err("tag_name not found in response"@)
    } else {
        let a = choose|a: int| #[trigger] is_first_occurrence(json, key, a);
        let from = a + key.len();
        if !(exists|i: int| #[trigger] is_first_char_from(json, '"', from, i)) {
            Err("Invalid JSON: missing quote after tag_name"@)
        } else {
            let q1 = choose|i: int| #[trigger] is_first_char_from(json, '"', from, i);
            if !(exists|i: int| #[trigger] is_first_char_from(json, '"', q1 + 1, i)) {
                Err("Invalid JSON: unclosed quote"@)
            } else {
                let q2 = choose|i: int| #[trigger] is_first_char_from(json, '"', q1 + 1, i);
                Ok(strip_v(json.subrange(q1 + 1, q2)))
            }
        }
    }
}

proof fn lemma_first_occurrence_unique(h: Seq<char>, n: Seq<char>, a: int, b: int)
    requires
        is_first_occurrence(h, n, a),
        is_first_occurrence(h, n, b),
    ensures
        a == b,
{
    if a < b {
        assert(!crate::text::occurs_at(h, n, a));
    } else if b < a {
        assert(!crate::text::occurs_at(h, n, b));
    }
}

proof fn lemma_first_char_unique(s: Seq<char>, c: char, from: int, a: int, b: int)
    requires
        is_first_char_from(s, c, from, a),
        is_first_char_from(s, c, from, b),
    ensures
        a == b,
{
    if a < b {
        assert(s[a] == c);
    } else if b < a {
        assert(s[b] == c);
    }
}

fn str_result(s: &str) -> (r: String)
    ensures
        r@ == s@,
{
    String::from_str(s)
}

/// Reads the latest version out of a releases response (see `tag_name_spec`).
pub fn parse_version_from_json(json: &str) -> (r: Result<String, String>)
    ensures
        match r {
            Ok(v) => tag_name_spec(json@) == Ok::<Seq<char>, Seq<char>>(v@),
            Err(e) => tag_name_spec(json@) == Err::<Seq<char>, Seq<char>>(e@),
        },
{
    let cs = chars_of(json);
    let n = cs.len();
    let key = "\"tag_name\"";
    let key_len = key.unicode_len();
    let a = match find_chars(&cs, key) {
        Some(a) => a,
        None => {
            return Err(str_result("tag_name not found in response"));
        },
    };
    proof {
        assert(is_first_occurrence(json@, key@, a as int));
        let a2 = choose|a2: int| #[trigger] is_first_occurrence(json@, key@, a2);
        lemma_first_occurrence_unique(json@, key@, a as int, a2);
    }
    assert(a + key_len <= n);
    let from = a + key_len;
    let q1 = match find_char(&cs, '"', from) {
        Some(q) => q,
        None => {
            return Err(str_result("Invalid JSON: missing quote after tag_name"));
        },
    };
    proof {
        assert(is_first_char_from(json@, '"', from as int, q1 as int));
        let b = choose|i: int| #[trigger] is_first_char_from(json@, '"', from as int, i);
        lemma_first_char_unique(json@, '"', from as int, q1 as int, b);
    }
    assert(q1 + 1 <= n);
    let q2 = match find_char(&cs, '"', q1 + 1) {
        Some(q) => q,
        None => {
            return Err(str_result("Invalid JSON: unclosed quote"));
        },
    };
    proof {
        assert(is_first_char_from(json@, '"', q1 + 1, q2 as int));
        let b = choose|i: int| #[trigger] is_first_char_from(json@, '"', q1 + 1, i);
        lemma_first_char_unique(json@, '"', q1 + 1, q2 as int, b);
    }
    let starts_v = q1 + 1 < q2 && cs[q1 + 1] == 'v';
    let begin = if starts_v {
        q1 + 2
    } else {
        q1 + 1
    };
    let tag = json.substring_char(begin, q2);
    proof {
        let t = json@.subrange(q1 + 1, q2 as int);
        if starts_v {
            assert(t[0] == 'v');
            assert(strip_v(t) =~= json@.subrange(begin as int, q2 as int));
        } else {
            assert(strip_v(t) =~= json@.subrange(begin as int, q2 as int));
        }
    }
    Ok(str_result(tag))
}

/// The result of a release check on a releases response: the latest version
/// it names, whether it is newer than this editor, and the installation kind.
pub fn check_for_update(response_body: &str, install_method: InstallMethod) -> (r: Result<
    ReleaseCheckResult,
    String,
>)
    ensures
        match tag_name_spec(response_body@) {
            Ok(v) => (r matches Ok(res) && res.latest_version@ == v && res.update_available
                == is_newer_spec(CURRENT_VERSION@, v) && res.install_method == install_method),
            Err(e) => (r matches Err(m) && m@ == e),
        },
{
    let latest_version = match parse_version_from_json(response_body) {
        Ok(v) => v,
        Err(e) => {
            return Err(e);
        },
    };
    let update_available = is_newer_version(CURRENT_VERSION, latest_version.as_str());
    Ok(ReleaseCheckResult { latest_version, update_available, install_method })
}

pub open spec fn is_arch_release(content: Seq<char>) -> bool {
    contains_seq(content, "Arch Linux"@) || contains_seq(content, "ID=arch"@)
}

/// Whether the contents of `/etc/os-release` (`None` when it cannot be read)
/// name Arch Linux.
pub fn is_arch_linux(os_release: Option<&str>) -> (r: bool)
    ensures
        r == (os_release matches Some(c) && is_arch_release(c@)),
{
    match os_release {
        Some(c) => {
            let cs = chars_of(c);
            contains_chars(&cs, "Arch Linux") || contains_chars(&cs, "ID=arch")
        },
        None => false,
    }
}

pub open spec fn install_method_spec(p: Seq<char>, arch: bool) -> InstallMethod {
    if contains_seq(p, "/opt/homebrew/"@) || contains_seq(p, "/usr/local/Cellar/"@)
        || contains_seq(p, "/home/linuxbrew/"@) || contains_seq(p, "/.linuxbrew/"@) {
        InstallMethod::Homebrew
    } else if contains_seq(p, "/.cargo/bin/"@) || contains_seq(p, "\\.cargo\\bin\\"@) {
        InstallMethod::Cargo
    } else if contains_seq(p, "/node_modules/"@) || contains_seq(p, "\\node_modules\\"@)
        || contains_seq(p, "/npm/"@) || contains_seq(p, "/lib/node_modules/"@) {
        InstallMethod::Npm
    } else if starts_with_seq(p, "/usr/bin/"@) && arch {
        InstallMethod::Aur
    } else if starts_with_seq(p, "/usr/bin/"@) || starts_with_seq(p, "/usr/local/bin/"@)
        || starts_with_seq(p, "/bin/"@) {
        InstallMethod::PackageManager
    } else {
        InstallMethod::Unknown
    }
}

/// The installation kind of an executable at `exe_path`, given the contents
/// of the system's os-release file (`None` when it cannot be read).
pub fn detect_install_method_from_path(exe_path: &str, os_release: Option<&str>) -> (r:
    InstallMethod)
    ensures
        r == install_method_spec(exe_path@, os_release matches Some(c) && is_arch_release(c@)),
{
    let p = chars_of(exe_path);
    if contains_chars(&p, "/opt/homebrew/") || contains_chars(&p, "/usr/local/Cellar/")
        || contains_chars(&p, "/home/linuxbrew/") || contains_chars(&p, "/.linuxbrew/") {
        return InstallMethod::Homebrew;
    }
    if contains_chars(&p, "/.cargo/bin/") || contains_chars(&p, "\\.cargo\\bin\\") {
        return InstallMethod::Cargo;
    }
    if contains_chars(&p, "/node_modules/") || contains_chars(&p, "\\node_modules\\")
        || contains_chars(&p, "/npm/") || contains_chars(&p, "/lib/node_modules/") {
        return InstallMethod::Npm;
    }
    let usr_bin = starts_with_chars(&p, "/usr/bin/");
    if usr_bin && is_arch_linux(os_release) {
        return InstallMethod::Aur;
    }
    if usr_bin || starts_with_chars(&p, "/usr/local/bin/") || starts_with_chars(&p, "/bin/") {
        return InstallMethod::PackageManager;
    }
    InstallMethod::Unknown
}

fn copy_result(r: &ReleaseCheckResult) -> (c: ReleaseCheckResult)
    ensures
        c == *r,
{
    ReleaseCheckResult {
        latest_version: r.latest_version.clone(),
        update_available: r.update_available,
        install_method: r.install_method,
    }
}

/// The latest successful release check, kept for the editor to ask about.
pub struct UpdateCache {
    last_result: Option<ReleaseCheckResult>,
}

impl UpdateCache {
    pub closed spec fn cached(&self) -> Option<ReleaseCheckResult> {
        self.last_result
    }

    pub fn new() -> (r: Self)
        ensures
            r.cached() is None,
    {
        UpdateCache { last_result: None }
    }

    /// Takes in what a background check delivered, if anything: a success
    /// replaces the cached result, a failure leaves it. Returns the delivery.
    pub fn record(&mut self, received: Option<Result<ReleaseCheckResult, String>>) -> (r: Option<
        Result<ReleaseCheckResult, String>,
    >)
        ensures
            r == received,
            final(self).cached() == (match received {
                Some(Ok(res)) => Some(res),
                _ => old(self).cached(),
            }),
    {
        if let Some(Ok(res)) = &received {
            self.last_result = Some(copy_result(res));
        }
        received
    }

    pub fn get_cached_result(&self) -> (r: Option<&ReleaseCheckResult>)
        ensures
            match self.cached() {
                Some(res) => r matches Some(x) && *x == res,
                None => r is None,
            },
    {
        self.last_result.as_ref()
    }

    /// Whether the cached check found a newer release.
    pub fn is_update_available(&self) -> (r: bool)
        ensures
            r == (self.cached() matches Some(res) && res.update_available),
    {
        match &self.last_result {
            Some(res) => res.update_available,
            None => false,
        }
    }

    /// The newer version that the cached check found, if any.
    pub fn latest_version(&self) -> (r: Option<&str>)
        ensures
            match self.cached() {
                Some(res) => if res.update_available {
                    r matches Some(v) && v@ == res.latest_version@
                } else {
                    r is None
                },
                None => r is None,
            },
    {
        match &self.last_result {
            Some(res) => if res.update_available {
                Some(res.latest_version.as_str())
            } else {
                None
            },
            None => None,
        }
    }
}

} // verus!
