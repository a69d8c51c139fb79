//! Scores of vulnerabilities. A score is a finite 64-bit float, held by its bits.
use crate::falcon::record::{text_at, text_under};
use crate::json::{at_pointer, float_bits, float_of, float_text, json, number_value, Json};
use crate::text::texts;
use vstd::prelude::*;

verus! {

/// The bits of the float zero with its sign set: from here on floats are negative.
pub const NEGATIVE: u64 = 0x8000_0000_0000_0000;

/// The order of finite floats: one is below another where its key is.
pub open spec fn float_key(bits: u64) -> int {
    if bits < NEGATIVE {
        bits as int
    } else {
        NEGATIVE - bits
    }
}

/// Whether a float is below another.
pub fn is_below(a: u64, b: u64) -> (r: bool)
    ensures
        r == (float_key(a) < float_key(b)),
{
    if a < NEGATIVE {
        b < NEGATIVE && a < b
    } else if b < NEGATIVE {
        a > NEGATIVE || b > 0
    } else {
        b < a
    }
}

/// The bits of the floats from one to ten.
pub open spec fn whole_bits(n: int) -> u64 {
    if n == 1 {
        0x3FF0_0000_0000_0000
    } else if n == 2 {
        0x4000_0000_0000_0000
    } else if n == 3 {
        0x4008_0000_0000_0000
    } else if n == 4 {
        0x4010_0000_0000_0000
    } else if n == 5 {
        0x4014_0000_0000_0000
    } else if n == 6 {
        0x4018_0000_0000_0000
    } else if n == 7 {
        0x401C_0000_0000_0000
    } else if n == 8 {
        0x4020_0000_0000_0000
    } else if n == 9 {
        0x4022_0000_0000_0000
    } else {
        0x4024_0000_0000_0000
    }
}

/// Whether a score reaches a whole number from one to ten.
pub open spec fn reaches(bits: u64, n: int) -> bool {
    float_key(bits) >= float_key(whole_bits(n))
}

/// Whether a score reaches a whole number.
fn does_reach(bits: u64, n: u64) -> (r: bool)
    requires
        1 <= n <= 10,
    ensures
        r == reaches(bits, n as int),
{
    let whole: u64 = if n == 1 {
        0x3FF0_0000_0000_0000
    } else if n == 2 {
        0x4000_0000_0000_0000
    } else if n == 3 {
        0x4008_0000_0000_0000
    } else if n == 4 {
        0x4010_0000_0000_0000
    } else if n == 5 {
        0x4014_0000_0000_0000
    } else if n == 6 {
        0x4018_0000_0000_0000
    } else if n == 7 {
        0x401C_0000_0000_0000
    } else if n == 8 {
        0x4020_0000_0000_0000
    } else if n == 9 {
        0x4022_0000_0000_0000
    } else {
        0x4024_0000_0000_0000
    };
    !is_below(bits, whole)
}

/// The severity of a vulnerability.
#[derive(Debug, Clone, Copy, PartialEq, Eq, Structural)]
pub enum Band {
    Critical,
    High,
    Medium,
    Low,
}

/// The severity that a score means: critical from nine, high from seven, medium from four.
pub open spec fn band_of(bits: u64) -> Band {
    if reaches(bits, 9) {
        Band::Critical
    } else if reaches(bits, 7) {
        Band::High
    } else if reaches(bits, 4) {
        Band::Medium
    } else {
        Band::Low
    }
}

/// The severity that a score means.
pub fn band(bits: u64) -> (r: Band)
    ensures
        r == band_of(bits),
{
    if does_reach(bits, 9) {
        Band::Critical
    } else if does_reach(bits, 7) {
        Band::High
    } else if does_reach(bits, 4) {
        Band::Medium
    } else {
        Band::Low
    }
}

/// The whole numbers from one up to `n` that a score reaches.
pub open spec fn whole_part(bits: u64, n: int) -> int
    decreases n,
{
    if n <= 0 {
        0
    } else if reaches(bits, n) {
        n
    } else {
        whole_part(bits, n - 1)
    }
}

/// The whole part of a score, at least zero and at most ten.
pub fn cvss_points(bits: u64) -> (r: u64)
    ensures
        r == whole_part(bits, 10),
        r <= 10,
{
    let mut n: u64 = 10;
    while n > 0
        invariant
            n <= 10,
            whole_part(bits, 10) == whole_part(bits, n as int),
        decreases n,
    {
        if does_reach(bits, n) {
            return n;
        }
        n -= 1;
    }
    0
}

// ---------------------------------------------------------------------------------------------
// Summaries

/// The open vulnerabilities of a device, counted by severity, with the highest score and the names
/// of the first critical ones.
pub struct Summary {
    pub critical: u64,
    pub high: u64,
    pub medium: u64,
    pub low: u64,
    pub total: u64,
    pub max_bits: u64,
    pub max_score: serde_json::Value,
    pub cves: Vec<String>,
}

/// A summary by its contents; the highest score stands by its bits.
#[verifier::ext_equal]
pub struct SummaryView {
    pub critical: u64,
    pub high: u64,
    pub medium: u64,
    pub low: u64,
    pub total: u64,
    pub max: u64,
    pub cves: Seq<Seq<char>>,
}

impl View for Summary {
    type V = SummaryView;

    open spec fn view(&self) -> SummaryView {
        SummaryView {
            critical: self.critical,
            high: self.high,
            medium: self.medium,
            low: self.low,
            total: self.total,
            max: self.max_bits,
            cves: texts(self.cves@),
        }
    }
}

/// A count that went up by one; it stays at the largest number.
pub open spec fn raised(n: u64) -> u64 {
    if n < u64::MAX {
        (n + 1) as u64
    } else {
        n
    }
}

fn raise(n: u64) -> (r: u64)
    ensures
        r == raised(n),
{
    if n < u64::MAX {
        n + 1
    } else {
        n
    }
}

/// The summary of no vulnerability.
pub open spec fn no_vulnerabilities() -> SummaryView {
    SummaryView { critical: 0, high: 0, medium: 0, low: 0, total: 0, max: 0, cves: Seq::empty() }
}

/// The score of a vulnerability; zero where it has none.
pub open spec fn score_of(vulnerability: Json) -> u64 {
    match at_pointer(vulnerability, "/cve/base_score"@) {
        Some(value) => match float_bits(value) {
            Some(bits) => bits,
            None => 0,
        },
        None => 0,
    }
}

/// A summary with one vulnerability more, by its score and name.
pub open spec fn with_score(s: SummaryView, score: u64, cve: Seq<char>) -> SummaryView {
    let band = band_of(score);
    SummaryView {
        critical: if band == Band::Critical {
            raised(s.critical)
        } else {
            s.critical
        },
        high: if band == Band::High {
            raised(s.high)
        } else {
            s.high
        },
        medium: if band == Band::Medium {
            raised(s.medium)
        } else {
            s.medium
        },
        low: if band == Band::Low {
            raised(s.low)
        } else {
            s.low
        },
        total: raised(s.total),
        max: if float_key(s.max) < float_key(score) {
            score
        } else {
            s.max
        },
        cves: if band == Band::Critical && s.cves.len() < 5 {
            s.cves.push(cve)
        } else {
            s.cves
        },
    }
}

/// A summary with one vulnerability more.
pub open spec fn with_vulnerability(s: SummaryView, vulnerability: Json) -> SummaryView {
    with_score(s, score_of(vulnerability), text_under(vulnerability, "/cve/id"@))
}

/// The summary of a list of vulnerabilities.
pub open spec fn summary_of(vulnerabilities: Seq<Json>) -> SummaryView
    decreases vulnerabilities.len(),
{
    if vulnerabilities.len() == 0 {
        no_vulnerabilities()
    } else {
        with_vulnerability(summary_of(vulnerabilities.drop_last()), vulnerabilities.last())
    }
}

/// The float zero as a JSON number, with its bits.
pub fn zero() -> (r: (u64, serde_json::Value))
    ensures
        r.0 == 0,
        json(r.1) == Json::Number(float_text(0)),
{
    let whole = number_value(0);
    match float_of(&whole) {
        Some(found) => found,
        None => (0, whole),
    }
}

impl Summary {
    /// The highest score is the number that its bits mean.
    pub open spec fn wf(&self) -> bool {
        json(self.max_score) == Json::Number(float_text(self.max_bits))
    }

    /// The summary of no vulnerability.
    pub fn new() -> (r: Summary)
        ensures
            r.wf(),
            r@ == no_vulnerabilities(),
    {
        let (max_bits, max_score) = zero();
        let r = Summary {
            critical: 0,
            high: 0,
            medium: 0,
            low: 0,
            total: 0,
            max_bits,
            max_score,
            cves: Vec::new(),
        };
        assert(r@ =~= no_vulnerabilities());
        r
    }

    /// Counts a vulnerability by its score, which comes with its JSON number, and its name.
    pub fn count_score(&mut self, score: u64, value: serde_json::Value, cve: String)
        requires
            old(self).wf(),
            json(value) == Json::Number(float_text(score)),
        ensures
            final(self).wf(),
            final(self)@ == with_score(old(self)@, score, cve@),
    {
        let ghost before = self@;
        let severity = band(score);
        self.total = raise(self.total);
        match severity {
            Band::Critical => {
                self.critical = raise(self.critical);
            },
            Band::High => {
                self.high = raise(self.high);
            },
            Band::Medium => {
                self.medium = raise(self.medium);
            },
            Band::Low => {
                self.low = raise(self.low);
            },
        }
        if is_below(self.max_bits, score) {
            self.max_bits = score;
            self.max_score = value;
        }
        if severity == Band::Critical && self.cves.len() < 5 {
            let ghost names = texts(self.cves@);
            self.cves.push(cve);
            assert(texts(self.cves@) =~= names.push(cve@));
        }
        assert(self@ =~= with_score(before, score, cve@));
    }

    /// Counts a vulnerability.
    pub fn count(&mut self, vulnerability: &serde_json::Value)
        requires
            old(self).wf(),
        ensures
            final(self).wf(),
            final(self)@ == with_vulnerability(old(self)@, json(*vulnerability)),
    {
        let found = match vulnerability.pointer("/cve/base_score") {
            Some(value) => float_of(value),
            None => None,
        };
        let (score, value) = match found {
            Some(pair) => pair,
            None => zero(),
        };
        self.count_score(score, value, text_at(vulnerability, "/cve/id"));
    }
}

/// The vulnerabilities of a severity in a list.
pub open spec fn count_of(vulnerabilities: Seq<Json>, band: Band) -> nat
    decreases vulnerabilities.len(),
{
    if vulnerabilities.len() == 0 {
        0
    } else {
        count_of(vulnerabilities.drop_last(), band) + (if band_of(
            score_of(vulnerabilities.last()),
        ) == band {
            1nat
        } else {
            0
        })
    }
}

/// A summary counts every vulnerability once, under its severity; it names at most five critical
/// ones; and its highest score is that of a vulnerability, below none of them.
pub proof fn law_summary(vulnerabilities: Seq<Json>)
    requires
        vulnerabilities.len() <= u64::MAX,
    ensures
        ({
            let s = summary_of(vulnerabilities);
            &&& s.total == vulnerabilities.len()
            &&& s.critical == count_of(vulnerabilities, Band::Critical)
            &&& s.high == count_of(vulnerabilities, Band::High)
            &&& s.medium == count_of(vulnerabilities, Band::Medium)
            &&& s.low == count_of(vulnerabilities, Band::Low)
            &&& s.critical + s.high + s.medium + s.low == s.total
            &&& s.cves.len() == (if s.critical < 5 {
                s.critical as int
            } else {
                5
            })
            &&& s.max == 0 || exists|i: int|
                0 <= i < vulnerabilities.len() && score_of(#[trigger] vulnerabilities[i]) == s.max
            &&& forall|i: int|
                0 <= i < vulnerabilities.len() ==> float_key(score_of(#[trigger] vulnerabilities[i]))
                    <= float_key(s.max)
        }),
    decreases vulnerabilities.len(),
{
    if vulnerabilities.len() > 0 {
        let front = vulnerabilities.drop_last();
        law_summary(front);
        let s = summary_of(vulnerabilities);
        let t = summary_of(front);
        let last = vulnerabilities.len() - 1;
        if s.max != t.max {
            assert(score_of(vulnerabilities[last]) == s.max);
        } else if s.max != 0 {
            let i = choose|i: int| 0 <= i < front.len() && score_of(#[trigger] front[i]) == t.max;
            assert(score_of(vulnerabilities[i]) == s.max);
        }
        assert forall|i: int| 0 <= i < vulnerabilities.len() implies float_key(
            score_of(#[trigger] vulnerabilities[i]),
        ) <= float_key(s.max) by {
            if i < last {
                assert(front[i] == vulnerabilities[i]);
            }
        }
    }
}

// ---------------------------------------------------------------------------------------------
// What scores mean

/// The bits of a float that is a whole number from one to ten: the exponent of the power of two
/// below it, and the number moved to the front of the fraction.
pub open spec fn bits_of_whole(n: int) -> int {
    let unit = 0x10_0000_0000_0000int;
    if n < 2 {
        n * unit + 1022 * unit
    } else if n < 4 {
        n * (unit / 2) + 1023 * unit
    } else if n < 8 {
        n * (unit / 4) + 1024 * unit
    } else {
        n * (unit / 8) + 1025 * unit
    }
}

proof fn lemma_whole_bits(n: int)
    requires
        1 <= n <= 10,
    ensures
        whole_bits(n) == bits_of_whole(n),
        whole_bits(n) < NEGATIVE,
{
}

/// Floats with their sign unset are ordered as their bits are, those with their sign set the other
/// way round and before them, and both zeros are the same.
pub proof fn law_float_order(a: u64, b: u64)
    ensures
        a < 0x8000_0000_0000_0000 && b < 0x8000_0000_0000_0000 ==> (float_key(a) < float_key(b)
            <==> a < b),
        a >= 0x8000_0000_0000_0000 && b >= 0x8000_0000_0000_0000 ==> (float_key(a) < float_key(b)
            <==> a > b),
        a >= 0x8000_0000_0000_0000 && b < 0x8000_0000_0000_0000 ==> float_key(a) <= float_key(b),
        float_key(0x8000_0000_0000_0000) == float_key(0),
{
}

/// A vulnerability is critical from nine on, high from seven, medium from four, and low below.
pub proof fn law_band(bits: u64)
    ensures
        ({
            let sign = bits >= 0x8000_0000_0000_0000;
            &&& band_of(bits) == Band::Critical <==> !sign && bits >= bits_of_whole(9)
            &&& band_of(bits) == Band::High <==> !sign && bits_of_whole(7) <= bits < bits_of_whole(9)
            &&& band_of(bits) == Band::Medium <==> !sign && bits_of_whole(4) <= bits
                < bits_of_whole(7)
            &&& band_of(bits) == Band::Low <==> sign || bits < bits_of_whole(4)
        }),
{
    lemma_whole_bits(9);
    lemma_whole_bits(7);
    lemma_whole_bits(4);
}

proof fn lemma_whole_part_of(bits: u64, n: int)
    requires
        0 <= n <= 10,
    ensures
        0 <= whole_part(bits, n) <= n,
        whole_part(bits, n) > 0 ==> reaches(bits, whole_part(bits, n)),
        whole_part(bits, n) < n ==> !reaches(bits, whole_part(bits, n) + 1),
    decreases n,
{
    if n > 0 {
        lemma_whole_part_of(bits, n - 1);
    }
}

/// The points for a score are its whole part: none below one or with the sign set, and never more
/// than ten.
pub proof fn law_cvss_points(bits: u64)
    ensures
        ({
            let points = whole_part(bits, 10);
            &&& 0 <= points <= 10
            &&& bits >= 0x8000_0000_0000_0000 ==> points == 0
            &&& bits < 0x8000_0000_0000_0000 && points > 0 ==> bits_of_whole(points) <= bits
            &&& bits < 0x8000_0000_0000_0000 && points < 10 ==> bits < bits_of_whole(points + 1)
        }),
{
    lemma_whole_part_of(bits, 10);
    let points = whole_part(bits, 10);
    if points > 0 {
        lemma_whole_bits(points);
    }
    if points < 10 {
        lemma_whole_bits(points + 1);
    }
}

/// The score of a vulnerability is the float at its place; where there is none, it counts as zero.
pub proof fn law_score(vulnerability: Json)
    ensures
        score_of(vulnerability) == (match at_pointer(vulnerability, "/cve/base_score"@) {
            Some(value) => match float_bits(value) {
                Some(bits) => bits,
                None => 0,
            },
            None => 0,
        }),
{
}

/// The number of vulnerabilities of a severity is that of those whose score means it.
pub proof fn law_count_of(vulnerabilities: Seq<Json>, band: Band)
    ensures
        count_of(vulnerabilities, band) == vulnerabilities.filter(
            |v: Json| band_of(score_of(v)) == band,
        ).len(),
    decreases vulnerabilities.len(),
{
    reveal(Seq::filter);
    if vulnerabilities.len() > 0 {
        law_count_of(vulnerabilities.drop_last(), band);
    }
}

/// A summary names the first five critical vulnerabilities, in order, by what stands at the place of
/// their names.
pub proof fn law_named(vulnerabilities: Seq<Json>)
    ensures
        ({
            let critical = vulnerabilities.filter(|v: Json| band_of(score_of(v)) == Band::Critical);
            let names = critical.map_values(|v: Json| text_under(v, "/cve/id"@));
            summary_of(vulnerabilities).cves == (if names.len() < 5 {
                names
            } else {
                names.take(5)
            })
        }),
    decreases vulnerabilities.len(),
{
    reveal(Seq::filter);
    let p = |v: Json| band_of(score_of(v)) == Band::Critical;
    let f = |v: Json| text_under(v, "/cve/id"@);
    let names = vulnerabilities.filter(p).map_values(f);
    if vulnerabilities.len() > 0 {
        let front = vulnerabilities.drop_last();
        let last = vulnerabilities.last();
        law_named(front);
        let earlier = front.filter(p).map_values(f);
        if p(last) {
            assert(names =~= earlier.push(f(last)));
            if earlier.len() < 5 {
                assert(earlier.len() == 4 ==> names.take(5) =~= names);
            } else {
                assert(names.take(5) =~= earlier.take(5));
            }
        } else {
            assert(names =~= earlier);
        }
    } else {
        assert(names =~= Seq::empty());
    }
}

} // verus!
