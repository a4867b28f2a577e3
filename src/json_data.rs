//! The records exchanged with the remote services, the display form of
//! download counts and the text of a published entry.

use vstd::prelude::*;
use vstd::arithmetic::div_mod::{lemma_div_denominator, lemma_div_pos_is_pos};
use crate::cli::Mod;
use crate::encoding::{json_quoted, push_json_str};
use crate::text::{dec, padded, pow10, push_dec, push_padded, push_str};

verus! {

pub const THOUSAND: u64 = 1_000;

pub const MILLION: u64 = 1_000_000;

pub const BILLION: u64 = 1_000_000_000;

pub const TRILLION: u64 = 1_000_000_000_000;

/// How many times `n` must be divided by ten until at most two digits remain.
pub open spec fn sci_shift(n: nat) -> nat
    decreases n,
{
    if n < 100 {
        0
    } else {
        1 + sci_shift(n / 10)
    }
}

/// Two significant digits of `n`, rounded half to even, as `(mantissa, exponent)`
/// where the mantissa lies in `10..=99` and `n` is about `mantissa / 10 * 10^exponent`.
pub open spec fn sci_parts(n: nat) -> (nat, nat) {
    let k = sci_shift(n);
    let base = pow10(k);
    let m = n / base;
    let r = n % base;
    let up = 2 * r > base || (2 * r == base && m % 2 == 1);
    let rounded: nat = if up { m + 1 } else { m };
    if rounded == 100 {
        (10, k + 2)
    } else {
        (rounded, k + 1)
    }
}

/// `n` in scientific notation with one fractional digit, such as `5.8e12`.
pub open spec fn sci_text(n: nat) -> Seq<char> {
    let (m, e) = sci_parts(n);
    dec(m / 10) + seq!['.'] + dec(m % 10) + seq!['e'] + dec(e)
}

/// Removes trailing zero digits from the `p` fractional digits of the fixed-point `t`.
pub open spec fn strip_zeros(t: nat, p: nat) -> (nat, nat)
    decreases p,
{
    if p > 0 && t % 10 == 0 {
        strip_zeros(t / 10, (p - 1) as nat)
    } else {
        (t, p)
    }
}

/// The unit and its suffix used for a count in `10_000..10^12`.
pub open spec fn count_unit(count: nat) -> (nat, char) {
    if count < 1_000_000 {
        (1000, 'k')
    } else if count < 1_000_000_000 {
        (1_000_000, 'M')
    } else {
        (1_000_000_000, 'T')
    }
}

/// `count / unit` truncated to three significant digits, trailing fractional
/// zeros dropped, followed by the unit's suffix: `6.15M`, `10k`, `346M`.
pub open spec fn scaled_text(count: nat) -> Seq<char> {
    let (unit, suffix) = count_unit(count);
    let whole = count / unit;
    let places: nat = if whole < 10 { 2 } else if whole < 100 { 1 } else { 0 };
    let (t, p) = strip_zeros(count * pow10(places) / unit, places);
    if p == 0 {
        dec(t).push(suffix)
    } else {
        dec(t / pow10(p)) + seq!['.'] + padded(t % pow10(p), p) + seq![suffix]
    }
}

/// Display form of a download count: exact below ten thousand, scaled by a
/// thousand, million or billion (suffix `k`, `M`, `T`) below 10^12, and in
/// scientific notation from there on.
pub open spec fn count_text(count: nat) -> Seq<char> {
    if count < 10_000 {
        dec(count)
    } else if count >= 1_000_000_000_000 {
        sci_text(count)
    } else {
        scaled_text(count)
    }
}

/// One fetched metric record.
#[derive(Clone, Debug)]
pub struct ModDetails {
    pub name: String,
    /// Link to the mod's page; empty for the totals entry.
    pub url: String,
    /// The platform's own identity of the mod.
    pub uid: u64,
    pub mod_downloads: usize,
    pub mod_unique_downloads: usize,
}

/// Sum of two counters, held at the largest value where it would not fit.
pub open spec fn capped_sum(a: nat, b: nat) -> nat {
    if a + b > usize::MAX {
        usize::MAX as nat
    } else {
        a + b
    }
}

impl ModDetails {
    /// The synthetic entry that sums all tracked counts, with zero counts.
    pub fn total() -> (r: ModDetails)
        ensures
            r.name@ == "Sum of all tracked counts"@,
            r.url@.len() == 0,
            r.uid == 0,
            r.mod_downloads == 0,
            r.mod_unique_downloads == 0,
    {
        ModDetails {
            name: String::from_str("Sum of all tracked counts"),
            url: String::new(),
            uid: 0,
            mod_downloads: 0,
            mod_unique_downloads: 0,
        }
    }

    /// Adds the counters of `other` to this entry's.
    pub fn add(&mut self, other: &ModDetails)
        ensures
            final(self).mod_downloads == capped_sum(
                old(self).mod_downloads as nat,
                other.mod_downloads as nat,
            ),
            final(self).mod_unique_downloads == capped_sum(
                old(self).mod_unique_downloads as nat,
                other.mod_unique_downloads as nat,
            ),
            final(self).name == old(self).name,
            final(self).url == old(self).url,
            final(self).uid == old(self).uid,
    {
        self.mod_downloads = self.mod_downloads.saturating_add(other.mod_downloads);
        self.mod_unique_downloads = self.mod_unique_downloads.saturating_add(
            other.mod_unique_downloads,
        );
    }

    /// The record with the link to the page of the mod it was fetched for.
    pub fn add_url(self, from: &Mod) -> (r: ModDetails)
        ensures
            r.url@ == from.url_spec(),
            r.name == self.name,
            r.uid == self.uid,
            r.mod_downloads == self.mod_downloads,
            r.mod_unique_downloads == self.mod_unique_downloads,
    {
        let mut d = self;
        d.url = from.url();
        d
    }
}

/// The credentials document: settings and the registry of tracked mods.
#[derive(Clone, Debug)]
pub struct Input {
    pub git_token: String,
    pub nexus_key: String,
    pub gist_id: String,
    pub owner: String,
    pub repo: String,
    pub mods: Vec<Mod>,
}

/// A file of a remote document as the git platform describes it.
#[derive(Clone, Debug)]
pub struct FileDetails {
    pub raw_url: String,
    pub content: String,
}

/// The remote document: its identifier and its files by name. No two files
/// share a name.
#[derive(Clone, Debug)]
pub struct GistResponse {
    pub id: String,
    pub files: Vec<(String, FileDetails)>,
}

/// The newest release and the message announcing it.
#[derive(Clone, Debug)]
pub struct Version {
    pub latest: String,
    pub message: String,
}

/// The public key against which a repository's secrets are sealed.
#[derive(Clone, Debug)]
pub struct RepositoryPublicKey {
    pub key_id: String,
    pub key: String,
}

/// One entry of the published document, at the indentation of a member of
/// the top-level object: its key, then its fields in declaration order; the
/// link only when there is one, the counters in display form.
pub open spec fn entry_json(key: Seq<char>, d: ModDetails) -> Seq<char> {
    "  "@ + json_quoted(key) + ": {\n    \"name\": "@ + json_quoted(d.name@) + ",\n"@ + url_member(d)
        + counter_members(d)
}

/// The link member of an entry, absent when the entry has no link.
pub open spec fn url_member(d: ModDetails) -> Seq<char> {
    if d.url@.len() == 0 {
        Seq::empty()
    } else {
        "    \"url\": "@ + json_quoted(d.url@) + ",\n"@
    }
}

/// The counter members of an entry and the end of its object.
pub open spec fn counter_members(d: ModDetails) -> Seq<char> {
    "    \"mod_downloads\": "@ + json_quoted(count_text(d.mod_downloads as nat))
        + ",\n    \"mod_unique_downloads\": "@ + json_quoted(count_text(d.mod_unique_downloads as nat))
        + "\n  }"@
}

/// Appends the text of one entry of the published document.
pub fn push_entry_json(s: &mut String, key: &str, d: &ModDetails)
    ensures
        final(s)@ == old(s)@ + entry_json(key@, *d),
{
    push_str(s, "  ");
    push_json_str(s, key);
    push_str(s, ": {\n    \"name\": ");
    push_json_str(s, d.name.as_str());
    push_str(s, ",\n");
    push_url_member(s, d);
    push_counter_members(s, d);
    assert(final(s)@ =~= old(s)@ + entry_json(key@, *d));
}

fn push_url_member(s: &mut String, d: &ModDetails)
    ensures
        final(s)@ == old(s)@ + url_member(*d),
{
    if !d.url.as_str().is_empty() {
        push_str(s, "    \"url\": ");
        push_json_str(s, d.url.as_str());
        push_str(s, ",\n");
    }
    assert(final(s)@ =~= old(s)@ + url_member(*d));
}

fn push_counter_members(s: &mut String, d: &ModDetails)
    ensures
        final(s)@ == old(s)@ + counter_members(*d),
{
    push_str(s, "    \"mod_downloads\": ");
    let dl = format_download_ct(d.mod_downloads);
    push_json_str(s, dl.as_str());
    push_str(s, ",\n    \"mod_unique_downloads\": ");
    let udl = format_download_ct(d.mod_unique_downloads);
    push_json_str(s, udl.as_str());
    push_str(s, "\n  }");
    assert(final(s)@ =~= old(s)@ + counter_members(*d));
}

fn sci_count_text(count: u64) -> (r: String)
    requires
        count >= 100,
    ensures
        r@ == sci_text(count as nat),
{
    let mut base: u64 = 1;
    let mut k: u64 = 0;
    while count / base >= 100
        invariant
            count >= 100,
            1 <= base <= count,
            base as nat == pow10(k as nat),
            k < base,
            count / base >= 10,
            sci_shift(count as nat) == k + sci_shift((count / base) as nat),
        decreases count / base,
    {
        proof {
            lemma_div_denominator(count as int, base as int, 10);
            assert(count / base >= 100);
            assert(base * 10 <= count) by (nonlinear_arith)
                requires count / base >= 100, base >= 1;
        }
        base = base * 10;
        k = k + 1;
        proof {
            lemma_pow10_exceeds(k as nat);
            lemma_div_pos_is_pos(count as int, base as int);
            assert(count / base < count / (base / 10)) by (nonlinear_arith)
                requires count / (base / 10) >= 100, count / base == (count / (base / 10)) / 10;
        }
    }
    let m = count / base;
    let r = count % base;    proof {
        assert(base <= count / 10) by (nonlinear_arith)
            requires count / base >= 10, base >= 1;
    }
    let up = 2 * r > base || (2 * r == base && m % 2 == 1);
    let rounded: u64 = if up { m + 1 } else { m };

    let (mant, exp) = if rounded == 100 { (10u64, k + 2) } else { (rounded, k + 1) };
    let mut s = String::new();
    push_dec(&mut s, mant / 10);
    s.push('.');
    push_dec(&mut s, mant % 10);
    s.push('e');
    push_dec(&mut s, exp);
    assert(s@ =~= sci_text(count as nat));
    s
}

fn scaled_count_text(count: u64) -> (r: String)
    requires
        10_000 <= count < TRILLION,
    ensures
        r@ == scaled_text(count as nat),
{
    let (unit, suffix) = if count < MILLION {
        (THOUSAND, 'k')
    } else if count < BILLION {
        (MILLION, 'M')
    } else {
        (BILLION, 'T')
    };
    let whole = count / unit;
    let places: u64 = if whole < 10 {
        2
    } else if whole < 100 {
        1
    } else {
        0
    };
    let scale: u64 = if places == 2 {
        100
    } else if places == 1 {
        10
    } else {
        1
    };
    proof {
        reveal_with_fuel(pow10, 3);
    }
    let t0 = count * scale / unit;
    let mut t = t0;
    let mut p = places;
    let mut sc = scale;
    while p > 0 && t % 10 == 0
        invariant
            p <= 2,
            sc as nat == pow10(p as nat),
            strip_zeros(t as nat, p as nat) == strip_zeros(t0 as nat, places as nat),
        decreases p,
    {
        t = t / 10;
        p = p - 1;
        sc = sc / 10;
    }
    let mut s = String::new();
    if p == 0 {
        push_dec(&mut s, t);
        s.push(suffix);
    } else {
        push_dec(&mut s, t / sc);
        s.push('.');
        push_padded(&mut s, t % sc, p);
        s.push(suffix);
    }
    assert(s@ =~= scaled_text(count as nat));
    s
}

/// Display form of a download count, as published in the remote document.
pub fn format_download_ct(count: usize) -> (r: String)
    ensures
        r@ == count_text(count as nat),
{
    let c = count as u64;
    if c < 10_000 {
        crate::text::dec_string(c)
    } else if c >= TRILLION {
        sci_count_text(c)
    } else {
        scaled_count_text(c)
    }
}

proof fn lemma_pow10_exceeds(k: nat)
    ensures
        pow10(k) > k,
    decreases k,
{
    if k > 0 {
        lemma_pow10_exceeds((k - 1) as nat);
    }
}

} // verus!
