//! Where the local documents live.

use vstd::prelude::*;
use crate::text::push_str;

verus! {

/// The name of this program's package.
pub const PKG_NAME: &'static str = "nexus_badges";

/// Whether `c` is white space in Unicode, as `char::is_whitespace` decides.
pub open spec fn is_white(c: char) -> bool {
    let u = c as u32;
    (0x09 <= u && u <= 0x0d) || u == 0x20 || u == 0x85 || u == 0xa0 || u == 0x1680 || (0x2000 <= u
        && u <= 0x200a) || u == 0x2028 || u == 0x2029 || u == 0x202f || u == 0x205f || u == 0x3000
}

pub fn is_white_char(c: char) -> (r: bool)
    ensures
        r == is_white(c),
{
    let u = c as u32;
    (0x09 <= u && u <= 0x0d) || u == 0x20 || u == 0x85 || u == 0xa0 || u == 0x1680 || (0x2000 <= u
        && u <= 0x200a) || u == 0x2028 || u == 0x2029 || u == 0x202f || u == 0x205f || u == 0x3000
}

pub open spec fn is_separator(c: char) -> bool {
    c == '-' || c == '_'
}

/// The characters to drop at either end of a text: white space, or
/// separators.
pub open spec fn trimmed(c: char, seps: bool) -> bool {
    if seps {
        is_separator(c)
    } else {
        is_white(c)
    }
}

/// The text without the trimmed characters at its start.
pub open spec fn trim_start(s: Seq<char>, seps: bool) -> Seq<char>
    decreases s.len(),
{
    if s.len() > 0 && trimmed(s[0], seps) {
        trim_start(s.drop_first(), seps)
    } else {
        s
    }
}

/// The text without the trimmed characters at its end.
pub open spec fn trim_end(s: Seq<char>, seps: bool) -> Seq<char>
    decreases s.len(),
{
    if s.len() > 0 && trimmed(s.last(), seps) {
        trim_end(s.drop_last(), seps)
    } else {
        s
    }
}

pub open spec fn trim_both(s: Seq<char>, seps: bool) -> Seq<char> {
    trim_end(trim_start(s, seps), seps)
}

pub open spec fn ascii_upper(c: char) -> char {
    if 'a' <= c && c <= 'z' {
        ((c as u32 - 32) as u8) as char
    } else {
        c
    }
}

fn upper_ascii(c: char) -> (r: char)
    ensures
        r == ascii_upper(c),
{
    if 'a' <= c && c <= 'z' {
        ((c as u32 - 32) as u8) as char
    } else {
        c
    }
}

/// The camel case of a trimmed text, with whether the next kept character
/// is capitalized: the first character is kept (capitalized when asked),
/// white space and separators are dropped and capitalize what follows.
pub open spec fn camel_fold(s: Seq<char>, capitalize_first: bool) -> (Seq<char>, bool)
    decreases s.len(),
{
    if s.len() == 0 {
        (Seq::empty(), false)
    } else {
        let (out, next) = camel_fold(s.drop_last(), capitalize_first);
        let c = s.last();
        if s.len() == 1 {
            (seq![if capitalize_first { ascii_upper(c) } else { c }], next)
        } else if is_white(c) || is_separator(c) {
            (out, true)
        } else if next {
            (out.push(ascii_upper(c)), false)
        } else {
            (out.push(c), next)
        }
    }
}

/// Camel case of an already lowercased text, trimmed of white space and
/// then of separators at both ends.
pub open spec fn camel_of_lowered(lowered: Seq<char>, capitalize_first: bool) -> Seq<char> {
    camel_fold(trim_both(trim_both(lowered, false), true), capitalize_first).0
}

/// The lowercase of a text, as Unicode defines it.
pub uninterp spec fn lower_of(s: Seq<char>) -> Seq<char>;

/// Relies on `str::to_lowercase`: the result depends on the characters alone.
#[verifier::external_body]
fn lowercase(s: &str) -> (r: String)
    ensures
        r@ == lower_of(s@),
{
    s.to_lowercase()
}

fn is_trimmed(c: char, seps: bool) -> (r: bool)
    ensures
        r == trimmed(c, seps),
{
    if seps {
        c == '-' || c == '_'
    } else {
        is_white_char(c)
    }
}

fn trim_str(s: &str, seps: bool) -> (r: &str)
    ensures
        r@ == trim_both(s@, seps),
{
    let n = s.unicode_len();
    let mut a: usize = 0;
    assert(s@.subrange(0, n as int) =~= s@);
    while a < n && is_trimmed(s.get_char(a), seps)
        invariant
            n == s@.len(),
            a <= n,
            trim_start(s@, seps) == trim_start(s@.subrange(a as int, n as int), seps),
        decreases n - a,
    {
        proof {
            assert(s@.subrange(a as int, n as int).drop_first() =~= s@.subrange(a + 1, n as int));
        }
        a = a + 1;
    }
    let ghost front = s@.subrange(a as int, n as int);
    assert(trim_start(front, seps) == front);
    let mut b: usize = n;
    while b > a && is_trimmed(s.get_char(b - 1), seps)
        invariant
            n == s@.len(),
            a <= b <= n,
            front == s@.subrange(a as int, n as int),
            trim_end(front, seps) == trim_end(s@.subrange(a as int, b as int), seps),
        decreases b,
    {
        proof {
            assert(s@.subrange(a as int, b as int).drop_last() =~= s@.subrange(a as int, b - 1));
        }
        b = b - 1;
    }
    proof {
        assert(s@.subrange(0, n as int) =~= s@);
    }
    s.substring_char(a, b)
}

/// Camel case of a lowercased text, e.g. `nexus_badges` gives `NexusBadges`
/// when the first character is capitalized.
pub fn camel_case_lowered(lowered: &str, capitalize_first: bool) -> (r: String)
    ensures
        r@ == camel_of_lowered(lowered@, capitalize_first),
{
    let t = trim_str(lowered, false);
    let u = trim_str(t, true);
    let n = u.unicode_len();
    let mut out = String::new();
    let mut capitalize_next = false;
    let mut i: usize = 0;
    while i < n
        invariant
            n == u@.len(),
            i <= n,
            (out@, capitalize_next) == camel_fold(u@.subrange(0, i as int), capitalize_first),
        decreases n - i,
    {
        let c = u.get_char(i);
        proof {
            let p = u@.subrange(0, i + 1);
            assert(p.drop_last() =~= u@.subrange(0, i as int));
            assert(p.last() == c);
        }
        if i == 0 {
            out.push(if capitalize_first { upper_ascii(c) } else { c });
            proof {
                assert(out@ =~= seq![if capitalize_first { ascii_upper(c) } else { c }]);
            }
        } else if is_white_char(c) || c == '-' || c == '_' {
            capitalize_next = true;
        } else if capitalize_next {
            capitalize_next = false;
            out.push(upper_ascii(c));
        } else {
            out.push(c);
        }
        i = i + 1;
    }
    assert(u@.subrange(0, n as int) =~= u@);
    out
}

/// Camel case of a text after lowercasing it.
pub fn camel_case(input: &str, capitalize_first: bool) -> (r: String)
    ensures
        r@ == camel_of_lowered(lower_of(input@), capitalize_first),
{
    let lowered = lowercase(input);
    camel_case_lowered(lowered.as_str(), capitalize_first)
}

/// `_` replaced by `-`.
pub open spec fn dashed(s: Seq<char>) -> Seq<char> {
    s.map_values(|c: char| if c == '_' { '-' } else { c })
}

pub fn dash_case(s: &str) -> (r: String)
    ensures
        r@ == dashed(s@),
{
    let n = s.unicode_len();
    let mut out = String::new();
    let mut i: usize = 0;
    while i < n
        invariant
            n == s@.len(),
            i <= n,
            out@ == dashed(s@.subrange(0, i as int)),
        decreases n - i,
    {
        let c = s.get_char(i);
        out.push(if c == '_' { '-' } else { c });
        proof {
            assert(dashed(s@.subrange(0, i + 1)) =~= dashed(s@.subrange(0, i as int)).push(
                if c == '_' { '-' } else { c },
            ));
        }
        i = i + 1;
    }
    assert(s@.subrange(0, n as int) =~= s@);
    out
}

/// The local documents of a run.
#[derive(Clone, Debug)]
pub struct FilePaths {
    pub input: String,
    pub output: String,
    pub badges: String,
    pub preferences: String,
}

impl Default for FilePaths {
    /// Paths next to the executable, under `io/`.
    fn default() -> (r: FilePaths)
        ensures
            r.input@ == "io/input.json"@,
            r.output@ == "io/output.json"@,
            r.badges@ == "io/badges.md"@,
            r.preferences@ == "io/badge_preferences.json"@,
    {
        FilePaths {
            input: String::from_str("io/input.json"),
            output: String::from_str("io/output.json"),
            badges: String::from_str("io/badges.md"),
            preferences: String::from_str("io/badge_preferences.json"),
        }
    }
}

/// The operating systems whose installed layout differs.
#[derive(Clone, Copy, Debug, PartialEq, Eq, Structural)]
pub enum Platform {
    Linux,
    MacOs,
    Windows,
}

/// The configuration directory of an installed program.
pub open spec fn config_base(platform: Platform, home: Seq<char>) -> Seq<char> {
    if platform == Platform::MacOs {
        home + "/Library/"@ + camel_of_lowered(lower_of(PKG_NAME@), true)
    } else {
        home + "/.config/"@ + dashed(PKG_NAME@)
    }
}

/// The paths of a run: next to the executable unless the program is
/// installed under `usr/local/bin` on Linux or macOS, where the documents go
/// to the user's configuration directory and the badges to `Documents`.
pub fn init_paths(platform: Platform, installed: bool, home: &str) -> (r: FilePaths)
    ensures
        (platform == Platform::Windows || !installed) ==> r.input@ == "io/input.json"@
            && r.output@ == "io/output.json"@ && r.badges@ == "io/badges.md"@ && r.preferences@
            == "io/badge_preferences.json"@,
        (platform != Platform::Windows && installed) ==> {
            let base = config_base(platform, home@);
            &&& r.input@ == base + "/input.json"@
            &&& r.output@ == base + "/output.json"@
            &&& r.badges@ == home@ + "/Documents/badges.md"@
            &&& r.preferences@ == base + "/badge_preferences.json"@
        },
{
    if platform == Platform::Windows || !installed {
        return FilePaths::default();
    }
    let mut base = String::from_str(home);
    if platform == Platform::MacOs {
        push_str(&mut base, "/Library/");
        let name = camel_case(PKG_NAME, true);
        push_str(&mut base, name.as_str());
    } else {
        push_str(&mut base, "/.config/");
        let name = dash_case(PKG_NAME);
        push_str(&mut base, name.as_str());
    }
    let mut input = base.clone();
    push_str(&mut input, "/input.json");
    let mut output = base.clone();
    push_str(&mut output, "/output.json");
    let mut badges = String::from_str(home);
    push_str(&mut badges, "/Documents/badges.md");
    let mut preferences = base.clone();
    push_str(&mut preferences, "/badge_preferences.json");
    FilePaths { input, output, badges, preferences }
}

/// The directory part of a path: the text before its last `/`.
pub fn parent_dir(path: &str) -> (r: Option<String>)
    ensures
        match r {
            Some(d) => exists|i: int|
                0 <= i < path@.len() && path@[i] == '/' && d@ == path@.subrange(0, i) && forall|
                    j: int,
                | i < j < path@.len() ==> path@[j] != '/',
            None => forall|j: int| 0 <= j < path@.len() ==> path@[j] != '/',
        },
{
    let n = path.unicode_len();
    let mut k: usize = n;
    while k > 0 && path.get_char(k - 1) != '/'
        invariant
            n == path@.len(),
            k <= n,
            forall|j: int| k <= j < n ==> path@[j] != '/',
        decreases k,
    {
        k = k - 1;
    }
    if k == 0 {
        None
    } else {
        Some(String::from_str(path.substring_char(0, k - 1)))
    }
}

} // verus!
