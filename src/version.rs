use vstd::prelude::*;
use vstd::string::StringExecFns;
use vstd::std_specs::convert::FromSpec;
use std::cmp::Ordering;

verus! {

/// HTTP version (usually 1.0 or 1.1): the major number, then the minor one.
#[derive(Debug, Clone, Copy, PartialEq, Eq, Structural, Ord)]
pub struct HTTPVersion(pub u8, pub u8);

impl View for HTTPVersion {
    type V = (u8, u8);

    open spec fn view(&self) -> (u8, u8) {
        (self.0, self.1)
    }
}

/// Lexicographic order on (major, minor): the major numbers decide, the minor
/// ones break a tie.
pub open spec fn version_cmp(a: HTTPVersion, b: HTTPVersion) -> Ordering {
    if a.0 < b.0 {
        Ordering::Less
    } else if a.0 > b.0 {
        Ordering::Greater
    } else if a.1 < b.1 {
        Ordering::Less
    } else if a.1 > b.1 {
        Ordering::Greater
    } else {
        Ordering::Equal
    }
}

/// The decimal digit of `d`, for `d` below ten.
pub open spec fn digit_char(d: nat) -> char {
    (d + 48) as char
}

/// The decimal numeral of `n`, without leading zeros.
pub open spec fn decimal(n: nat) -> Seq<char>
    decreases n,
{
    if n < 10 {
        seq![digit_char(n)]
    } else {
        decimal(n / 10) + seq![digit_char(n % 10)]
    }
}

/// The text `major.minor`.
pub open spec fn version_text(v: HTTPVersion) -> Seq<char> {
    decimal(v.0 as nat) + seq!['.'] + decimal(v.1 as nat)
}

fn digit_str(d: u8) -> (r: &'static str)
    requires
        d < 10,
    ensures
        r@ == seq![digit_char(d as nat)],
{
    proof {
        reveal_strlit("0");
        reveal_strlit("1");
        reveal_strlit("2");
        reveal_strlit("3");
        reveal_strlit("4");
        reveal_strlit("5");
        reveal_strlit("6");
        reveal_strlit("7");
        reveal_strlit("8");
        reveal_strlit("9");
    }
    let r = match d {
        0 => "0",
        1 => "1",
        2 => "2",
        3 => "3",
        4 => "4",
        5 => "5",
        6 => "6",
        7 => "7",
        8 => "8",
        _ => "9",
    };
    assert(r@ =~= seq![digit_char(d as nat)]);
    r
}

/// Appends the decimal numeral of `n` to `s`.
fn push_decimal(s: &mut String, n: u8)
    ensures
        final(s)@ == old(s)@ + decimal(n as nat),
{
    if n >= 100 {
        s.append(digit_str(n / 100));
    }
    if n >= 10 {
        s.append(digit_str((n / 10) % 10));
    }
    s.append(digit_str(n % 10));
    proof {
        let m = n as nat;
        if m >= 100 {
            assert(decimal(m / 100) == seq![digit_char(m / 100)]);
            assert(decimal(m / 10) == decimal(m / 100) + seq![digit_char((m / 10) % 10)]) by {
                assert((m / 10) / 10 == m / 100);
            }
        } else if m >= 10 {
            assert(decimal(m / 10) == seq![digit_char(m / 10)]);
            assert((m / 10) % 10 == m / 10);
        }
        assert(final(s)@ =~= old(s)@ + decimal(m));
    }
}

impl HTTPVersion {
    /// Compares two versions, major number first.
    pub fn compare(&self, other: &HTTPVersion) -> (r: Ordering)
        ensures
            r == version_cmp(*self, *other),
    {
        if self.0 != other.0 {
            if self.0 < other.0 {
                Ordering::Less
            } else {
                Ordering::Greater
            }
        } else if self.1 < other.1 {
            Ordering::Less
        } else if self.1 > other.1 {
            Ordering::Greater
        } else {
            Ordering::Equal
        }
    }

    /// The version as a raw `(major, minor)` pair.
    pub fn to_pair(&self) -> (r: (u8, u8))
        ensures
            r == self@,
    {
        (self.0, self.1)
    }

    /// Whether this version is the one that the raw pair `(major, minor)` names.
    pub fn eq_pair(&self, pair: (u8, u8)) -> (r: bool)
        ensures
            r == (*self == HTTPVersion::from_spec(pair)),
    {
        let other = HTTPVersion::from(pair);
        *self == other
    }

    /// Compares this version with the one that the raw pair `(major, minor)` names.
    pub fn cmp_pair(&self, pair: (u8, u8)) -> (r: Ordering)
        ensures
            r == version_cmp(*self, HTTPVersion::from_spec(pair)),
    {
        let other = HTTPVersion::from(pair);
        self.compare(&other)
    }

    /// The version as text, `major.minor`.
    pub fn to_text(&self) -> (r: String)
        ensures
            r@ == version_text(*self),
    {
        let mut s = String::new();
        push_decimal(&mut s, self.0);
        s.append(".");
        push_decimal(&mut s, self.1);
        proof {
            reveal_strlit(".");
            assert(s@ =~= version_text(*self));
        }
        s
    }
}

/// The order is total and antisymmetric: two versions compare equal exactly
/// when they are the same, and swapping them swaps less and greater.
pub proof fn lemma_order_total(a: HTTPVersion, b: HTTPVersion)
    ensures
        version_cmp(a, b) == Ordering::Equal <==> a == b,
        version_cmp(a, b) == Ordering::Less <==> version_cmp(b, a) == Ordering::Greater,
        version_cmp(a, b) == Ordering::Less <==> (a.0 < b.0 || (a.0 == b.0 && a.1 < b.1)),
{
}

/// The order is transitive, strictly and not strictly.
pub proof fn lemma_order_transitive(a: HTTPVersion, b: HTTPVersion, c: HTTPVersion)
    ensures
        version_cmp(a, b) == Ordering::Less && version_cmp(b, c) == Ordering::Less
            ==> version_cmp(a, c) == Ordering::Less,
        version_cmp(a, b) != Ordering::Greater && version_cmp(b, c) != Ordering::Greater
            ==> version_cmp(a, c) != Ordering::Greater,
{
}

/// A raw pair turned into a version and back is the same pair, and a version
/// turned into a pair and back is the same version.
pub proof fn lemma_pair_round_trip(pair: (u8, u8), v: HTTPVersion)
    ensures
        HTTPVersion::from_spec(pair)@ == pair,
        HTTPVersion::from_spec(v@) == v,
{
}

impl PartialOrd for HTTPVersion {
    fn partial_cmp(&self, other: &HTTPVersion) -> (r: Option<Ordering>) {
        Some(self.compare(other))
    }
}

impl vstd::std_specs::cmp::PartialOrdSpecImpl for HTTPVersion {
    open spec fn obeys_partial_cmp_spec() -> bool {
        true
    }

    open spec fn partial_cmp_spec(&self, other: &HTTPVersion) -> Option<Ordering> {
        Some(version_cmp(*self, *other))
    }
}

impl From<(u8, u8)> for HTTPVersion {
    fn from(pair: (u8, u8)) -> (r: HTTPVersion) {
        HTTPVersion(pair.0, pair.1)
    }
}

impl vstd::std_specs::convert::FromSpecImpl<(u8, u8)> for HTTPVersion {
    open spec fn obeys_from_spec() -> bool {
        true
    }

    open spec fn from_spec(pair: (u8, u8)) -> HTTPVersion {
        HTTPVersion(pair.0, pair.1)
    }
}

} // verus!
