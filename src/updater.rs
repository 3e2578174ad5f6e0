//! The decisions of the self-updater: which release is newer than the running
//! program, and which of its files to fetch.
use crate::error::Error;
use crate::text::{concat, strings_view, suffix_from};
use vstd::prelude::*;

verus! {

/// A file attached to a release.
#[derive(Debug)]
pub struct Asset {
    pub name: String,
    pub browser_download_url: String,
}

/// A published release of the program.
#[derive(Debug)]
pub struct Release {
    pub name: String,
    pub tag_name: String,
    pub draft: bool,
    pub prerelease: bool,
    /// The plain build first, then the minified one.
    pub assets: Vec<Asset>,
}

impl Release {
    /// The address of the minified build or of the plain one; `None` where
    /// the release lacks it.
    pub fn get_download_url(&self, minified: bool) -> (r: Option<String>)
        ensures
            ({
                let k: int = if minified {
                    1
                } else {
                    0
                };
                &&& k < self.assets@.len() ==> (r matches Some(u) && u@
                    == self.assets@[k].browser_download_url@)
                &&& k >= self.assets@.len() ==> r is None
            }),
    {
        let k: usize = if minified {
            1
        } else {
            0
        };
        if k < self.assets.len() {
            Some(self.assets[k].browser_download_url.clone())
        } else {
            None
        }
    }
}

pub open spec fn is_digit(c: char) -> bool {
    '0' <= c && c <= '9'
}

/// The number that a sequence of decimal digits writes.
pub open spec fn digits_value(d: Seq<char>) -> int
    decreases d.len(),
{
    if d.len() == 0 {
        0
    } else {
        digits_value(d.drop_last()) * 10 + (d.last() as int - '0' as int)
    }
}

/// Every character is a decimal digit.
pub open spec fn all_digits(d: Seq<char>) -> bool {
    forall|i: int| 0 <= i < d.len() ==> is_digit(#[trigger] d[i])
}

/// The text without one leading `+`.
pub open spec fn unsigned_part(s: Seq<char>) -> Seq<char> {
    if s.len() > 0 && s[0] == '+' {
        s.drop_first()
    } else {
        s
    }
}

/// The byte that a text writes in decimal, as `u8::from_str` reads it: an
/// optional `+`, then at least one digit, and nothing else.
pub open spec fn u8_text(s: Seq<char>) -> Option<u8> {
    let d = unsigned_part(s);
    if d.len() > 0 && all_digits(d) && digits_value(d) <= 255 {
        Some(digits_value(d) as u8)
    } else {
        None
    }
}

/// Reads a byte written in decimal.
pub fn parse_u8(s: &str) -> (r: Option<u8>)
    ensures
        r == u8_text(s@),
{
    let n = s.unicode_len();
    let start: usize = if n > 0 && s.get_char(0) == '+' {
        1
    } else {
        0
    };
    let ghost d = s@.subrange(start as int, n as int);
    assert(d =~= unsigned_part(s@));
    if start == n {
        return None;
    }
    let mut v: u32 = 0;
    let mut i: usize = start;
    assert(s@.subrange(start as int, start as int) =~= Seq::<char>::empty());
    while i < n
        invariant
            n == s@.len(),
            start <= i <= n,
            d == s@.subrange(start as int, n as int),
            d == unsigned_part(s@),
            forall|j: int| start <= j < i ==> is_digit(#[trigger] s@[j]),
            v == (if digits_value(s@.subrange(start as int, i as int)) <= 255 {
                digits_value(s@.subrange(start as int, i as int))
            } else {
                256
            }),
            digits_value(s@.subrange(start as int, i as int)) >= 0,
        decreases n - i,
    {
        let c = s.get_char(i);
        if !('0' <= c && c <= '9') {
            assert(d[i - start] == c);
            assert(!is_digit(d[i - start]));
            return None;
        }
        let ghost pre = s@.subrange(start as int, i as int);
        let ghost next = s@.subrange(start as int, i + 1);
        assert(next.drop_last() =~= pre);
        assert(next.last() == c);
        let digit = (c as u32) - ('0' as u32);
        if v <= 255 {
            v = v * 10 + digit;
            if v > 255 {
                v = 256;
            }
        }
        i = i + 1;
    }
    assert(s@.subrange(start as int, n as int) == d);
    if v <= 255 {
        assert forall|j: int| 0 <= j < d.len() implies is_digit(#[trigger] d[j]) by {
            assert(d[j] == s@[start + j]);
        }
        Some(v as u8)
    } else {
        None
    }
}

/// The fields of a text split at each `.`, read from the left: the fields
/// already closed by a `.`, and the one still open.
pub open spec fn scan_fields(s: Seq<char>) -> (Seq<Seq<char>>, Seq<char>)
    decreases s.len(),
{
    if s.len() == 0 {
        (Seq::empty(), Seq::empty())
    } else {
        let prev = scan_fields(s.drop_last());
        if s.last() == '.' {
            (prev.0.push(prev.1), Seq::empty())
        } else {
            (prev.0, prev.1.push(s.last()))
        }
    }
}

/// The fields of a text split at each `.`.
pub open spec fn fields_of(s: Seq<char>) -> Seq<Seq<char>> {
    scan_fields(s).0.push(scan_fields(s).1)
}

/// Splits a text at each `.`.
pub fn split_fields(s: &str) -> (r: Vec<String>)
    ensures
        strings_view(r@) == fields_of(s@),
{
    let n = s.unicode_len();
    let mut done: Vec<String> = Vec::new();
    let mut start: usize = 0;
    let mut i: usize = 0;
    assert(s@.subrange(0, 0) =~= Seq::<char>::empty());
    while i < n
        invariant
            n == s@.len(),
            start <= i <= n,
            scan_fields(s@.subrange(0, i as int)) == (strings_view(done@), s@.subrange(
                start as int,
                i as int,
            )),
        decreases n - i,
    {
        let ghost next = s@.subrange(0, i + 1);
        assert(next.drop_last() =~= s@.subrange(0, i as int));
        assert(next.last() == s@[i as int]);
        if s.get_char(i) == '.' {
            let f = s.substring_char(start, i).to_owned();
            let ghost before = done@;
            done.push(f);
            assert(strings_view(done@) =~= strings_view(before).push(f@));
            start = i + 1;
            assert(s@.subrange(start as int, i + 1) =~= Seq::<char>::empty());
        } else {
            assert(s@.subrange(start as int, i + 1) =~= s@.subrange(start as int, i as int).push(
                s@[i as int],
            ));
        }
        i = i + 1;
    }
    assert(s@.subrange(0, n as int) =~= s@);
    let last = s.substring_char(start, n).to_owned();
    let ghost before = done@;
    done.push(last);
    assert(strings_view(done@) =~= strings_view(before).push(last@));
    done
}

/// A version of the program: major, minor and patch number.
#[derive(Debug, Clone, Copy, PartialEq, Eq, Structural)]
pub struct Version {
    pub major: u8,
    pub minor: u8,
    pub patch: u8,
}

/// The text without one leading `v`.
pub open spec fn without_v(s: Seq<char>) -> Seq<char> {
    if s.len() > 0 && s[0] == 'v' {
        s.drop_first()
    } else {
        s
    }
}

/// The version that a text such as `v1.2.3` writes: an optional `v`, then
/// fields separated by `.`, each a byte in decimal, at least three of them;
/// the first three are the version.
pub open spec fn version_of(s: Seq<char>) -> Option<Version> {
    let f = fields_of(without_v(s));
    if f.len() >= 3 && forall|i: int| 0 <= i < f.len() ==> (#[trigger] u8_text(f[i])) is Some {
        Some(Version { major: u8_text(f[0])->0, minor: u8_text(f[1])->0, patch: u8_text(f[2])->0 })
    } else {
        None
    }
}

/// `a` comes before `b`, comparing major, minor, then patch number.
pub open spec fn older(a: Version, b: Version) -> bool {
    a.major < b.major || (a.major == b.major && (a.minor < b.minor || (a.minor == b.minor && a.patch
        < b.patch)))
}

impl Version {
    /// Reads a version such as `v1.2.3`; `Error::Version` where the text is
    /// none.
    pub fn new(s: &str) -> (r: Result<Version, Error>)
        ensures
            match version_of(s@) {
                Some(v) => r == Ok::<Version, Error>(v),
                None => r matches Err(e) && e is Version,
            },
    {
        let n = s.unicode_len();
        let t = if n > 0 && s.get_char(0) == 'v' {
            suffix_from(s, 1)
        } else {
            s.to_owned()
        };
        assert(t@ =~= without_v(s@));
        let fields = split_fields(t.as_str());
        let ghost f = fields_of(t@);
        let k = fields.len();
        let mut parts: Vec<u8> = Vec::new();
        let mut i: usize = 0;
        while i < k
            invariant
                k == fields@.len(),
                f == strings_view(fields@),
                f == fields_of(without_v(s@)),
                i <= k,
                parts@.len() == i,
                forall|j: int| 0 <= j < i ==> u8_text(#[trigger] f[j]) == Some(parts@[j]),
            decreases k - i,
        {
            assert(f[i as int] == fields@[i as int]@);
            match parse_u8(fields[i].as_str()) {
                Some(b) => {
                    parts.push(b);
                },
                None => {
                    return Err(Error::Version(concat("Not a version number: ", s)));
                },
            }
            i = i + 1;
        }
        if k < 3 {
            return Err(Error::Version(concat("Not a version number: ", s)));
        }
        Ok(Version { major: parts[0], minor: parts[1], patch: parts[2] })
    }

    /// Whether this version comes before `other`.
    pub fn is_older_than(&self, other: &Version) -> (r: bool)
        ensures
            r == older(*self, *other),
    {
        self.major < other.major || (self.major == other.major && (self.minor < other.minor || (
        self.minor == other.minor && self.patch < other.patch)))
    }
}

/// What the updater fetches: the address of the new build and the release's tag.
pub struct UpdateTarget {
    pub url: String,
    pub tag_name: String,
}

/// The update to make, given the published releases (newest first) and the
/// running program's version: the newest release where it is newer, in the
/// minified or plain build. Without releases, or where the newest is no newer,
/// or lacks the build, there is nothing to do and the error says why; a
/// version that cannot be read gives `Error::Version`.
pub fn update_target(releases: &Vec<Release>, current: &str, minified: bool) -> (r: Result<
    UpdateTarget,
    Error,
>)
    ensures
        releases@.len() == 0 ==> (r matches Err(e) && e is Rustea),
        releases@.len() > 0 ==> ({
            let latest = releases@[0];
            match (version_of(current@), version_of(latest.tag_name@)) {
                (Some(a), Some(b)) => if older(a, b) {
                    match latest.get_download_url_spec(minified) {
                        Some(u) => r matches Ok(t) && t.url@ == u && t.tag_name@ == latest.tag_name@,
                        None => r matches Err(e) && e is Update,
                    }
                } else {
                    r matches Err(e) && e is Rustea
                },
                _ => r matches Err(e) && e is Version,
            }
        }),
{
    if releases.len() == 0 {
        return Err(Error::Rustea("Failed to fetch the latest release from github.".to_owned()));
    }
    let latest = &releases[0];
    let cur = match Version::new(current) {
        Ok(v) => v,
        Err(e) => {
            return Err(e);
        },
    };
    let new = match Version::new(latest.tag_name.as_str()) {
        Ok(v) => v,
        Err(e) => {
            return Err(e);
        },
    };
    if cur.is_older_than(&new) {
        match latest.get_download_url(minified) {
            Some(url) => Ok(UpdateTarget { url, tag_name: latest.tag_name.clone() }),
            None => Err(Error::Update(concat("No build to download in release ", latest.tag_name.as_str()))),
        }
    } else {
        Err(Error::Rustea("Nothing to update".to_owned()))
    }
}

impl Release {
    /// The address of the asked build, where the release has it.
    pub open spec fn get_download_url_spec(&self, minified: bool) -> Option<Seq<char>> {
        let k: int = if minified {
            1
        } else {
            0
        };
        if k < self.assets@.len() {
            Some(self.assets@[k].browser_download_url@)
        } else {
            None
        }
    }
}

/// The self-updater of the program installed at `binary_path`.
#[derive(Debug)]
pub struct Updater {
    pub binary_path: String,
}

/// The file that keeps the old program while the new one is written, beside it.
pub fn backup_path(parent: &str) -> (r: String)
    ensures
        r@ == parent@ + "/rustea.bak"@,
{
    concat(parent, "/rustea.bak")
}

} // verus!
