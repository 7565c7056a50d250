//! IPv4 addresses.
use vstd::prelude::*;

use crate::text;
use crate::text::{decimal, digit};

verus! {

/// An IPv4 address.
#[derive(Clone, Copy, Debug, PartialEq, Eq, Structural, Hash)]
pub struct Ipv4Addr {
    /// The four octets as one number, the first octet being the most significant.
    pub bits: u32,
}

/// The dotted quad of four octets.
pub open spec fn dotted(a: u8, b: u8, c: u8, d: u8) -> Seq<char> {
    decimal(a as nat) + seq!['.'] + decimal(b as nat) + seq!['.'] + decimal(c as nat) + seq!['.']
        + decimal(d as nat)
}

impl Ipv4Addr {
    /// The octets, first to last.
    pub open spec fn octets(self) -> Seq<u8> {
        seq![
            (self.bits / 0x100_0000) as u8,
            (self.bits / 0x1_0000 % 0x100) as u8,
            (self.bits / 0x100 % 0x100) as u8,
            (self.bits % 0x100) as u8,
        ]
    }

    /// The address as a dotted quad.
    pub open spec fn text(self) -> Seq<char> {
        dotted(self.octets()[0], self.octets()[1], self.octets()[2], self.octets()[3])
    }

    /// The address that `s` is the text of.
    pub open spec fn from_text(s: Seq<char>) -> Option<Ipv4Addr> {
        if exists|addr: Ipv4Addr| s == #[trigger] addr.text() {
            Some(choose|addr: Ipv4Addr| s == #[trigger] addr.text())
        } else {
            None
        }
    }

    /// The address of four octets.
    pub fn new(a: u8, b: u8, c: u8, d: u8) -> (addr: Ipv4Addr)
        ensures
            addr.octets() == seq![a, b, c, d],
            addr.bits == a * 0x100_0000 + b * 0x1_0000 + c * 0x100 + d,
    {
        let bits: u32 = a as u32 * 0x100_0000 + b as u32 * 0x1_0000 + c as u32 * 0x100 + d as u32;
        let addr = Ipv4Addr { bits };
        proof {
            lemma_octets_of(a as int, b as int, c as int, d as int);
            assert(addr.octets() =~= seq![a, b, c, d]);
        }
        addr
    }

    /// The address 0.0.0.0, which stands for no address.
    pub fn unspecified() -> (addr: Ipv4Addr)
        ensures
            addr.bits == 0,
    {
        Ipv4Addr { bits: 0 }
    }

    /// Whether the address is 0.0.0.0.
    pub fn is_unspecified(&self) -> (b: bool)
        ensures
            b == (self.bits == 0),
    {
        self.bits == 0
    }

    /// The address as a dotted quad.
    pub fn to_string(&self) -> (s: String)
        ensures
            s@ == self.text(),
    {
        let a: u8 = (self.bits / 0x100_0000) as u8;
        let b: u8 = (self.bits / 0x1_0000 % 0x100) as u8;
        let c: u8 = (self.bits / 0x100 % 0x100) as u8;
        let d: u8 = (self.bits % 0x100) as u8;
        proof {
            reveal_strlit(".");
            assert("."@ =~= seq!['.']);
        }
        let mut s = String::new();
        text::push_decimal(&mut s, a as u32);
        s.append(".");
        text::push_decimal(&mut s, b as u32);
        s.append(".");
        text::push_decimal(&mut s, c as u32);
        s.append(".");
        text::push_decimal(&mut s, d as u32);
        assert(s@ =~= self.text());
        s
    }

    /// Reads a dotted quad of decimal octets without leading zeros.
    ///
    /// An address comes back exactly when `s` is its text.
    pub fn parse(s: &str) -> (r: Option<Ipv4Addr>)
        ensures
            r == Ipv4Addr::from_text(s@),
            r matches Some(addr) ==> s@ == addr.text(),
            r is None ==> forall|addr: Ipv4Addr| s@ != #[trigger] addr.text(),
    {
        let len: usize = s.unicode_len();
        let r = parse_dotted(s, len);
        proof {
            match r {
                Some(addr) => {
                    reading_undoes_writing(addr);
                },
                None => {
                    assert forall|addr: Ipv4Addr| s@ != #[trigger] addr.text() by {
                        let o = addr.octets();
                        assert(addr.text() == dotted(o[0], o[1], o[2], o[3]));
                    }
                },
            }
        }
        r
    }
}

/// The text of an address reads as that address.
pub proof fn reading_undoes_writing(addr: Ipv4Addr)
    ensures
        Ipv4Addr::from_text(addr.text()) == Some(addr),
{
    let s = addr.text();
    assert(exists|other: Ipv4Addr| s == #[trigger] other.text());
    let other = choose|other: Ipv4Addr| s == #[trigger] other.text();
    text_identifies_address(addr, other);
}

/// No two addresses share a text.
pub proof fn text_identifies_address(a: Ipv4Addr, b: Ipv4Addr)
    ensures
        a.text() == b.text() ==> a == b,
{
    if a.text() == b.text() {
        lemma_same_runs(a.text(), a.octets(), b.octets());
        lemma_bits_of_octets(a);
        lemma_bits_of_octets(b);
    }
}

pub(crate) proof fn lemma_bits_of_octets(addr: Ipv4Addr)
    ensures
        ({
            let o = addr.octets();
            addr.bits == o[0] * 0x100_0000 + o[1] * 0x1_0000 + o[2] * 0x100 + o[3]
        }),
{
    let x = addr.bits as int;
    assert(x == x / 0x100 * 0x100 + x % 0x100);
    assert(x / 0x100 == x / 0x1_0000 * 0x100 + x / 0x100 % 0x100);
    assert(x / 0x1_0000 == x / 0x100_0000 * 0x100 + x / 0x1_0000 % 0x100);
}

pub(crate) proof fn lemma_octets_of(a: int, b: int, c: int, d: int)
    requires
        0 <= a < 0x100,
        0 <= b < 0x100,
        0 <= c < 0x100,
        0 <= d < 0x100,
    ensures
        ({
            let bits = a * 0x100_0000 + b * 0x1_0000 + c * 0x100 + d;
            &&& bits / 0x100_0000 == a
            &&& bits / 0x1_0000 % 0x100 == b
            &&& bits / 0x100 % 0x100 == c
            &&& bits % 0x100 == d
        }),
{
    let bits = a * 0x100_0000 + b * 0x1_0000 + c * 0x100 + d;
    assert(bits / 0x100 == a * 0x1_0000 + b * 0x100 + c);
    assert(bits / 0x1_0000 == a * 0x100 + b);
}

spec fn is_digit(c: char) -> bool {
    '0' <= c <= '9'
}

/// The longest run of digits of `s` that starts at `i` ends before `j` and spells `v`.
spec fn is_run(s: Seq<char>, i: int, j: int, v: u8) -> bool {
    &&& 0 <= i < j <= s.len()
    &&& s.subrange(i, j) == decimal(v as nat)
    &&& j == s.len() || !is_digit(s[j])
}

/// The positions at which the octets of a dotted quad end.
spec fn ends(a: u8, b: u8, c: u8, d: u8) -> (int, int, int, int) {
    let p = decimal(a as nat).len() as int;
    let q = p + 1 + decimal(b as nat).len();
    let r = q + 1 + decimal(c as nat).len();
    (p, q, r, r + 1 + decimal(d as nat).len())
}

proof fn lemma_dotted_runs(s: Seq<char>, a: u8, b: u8, c: u8, d: u8)
    requires
        s == dotted(a, b, c, d),
    ensures
        ({
            let (p, q, r, t) = ends(a, b, c, d);
            &&& is_run(s, 0, p, a)
            &&& p < s.len() && s[p] == '.'
            &&& is_run(s, p + 1, q, b)
            &&& q < s.len() && s[q] == '.'
            &&& is_run(s, q + 1, r, c)
            &&& r < s.len() && s[r] == '.'
            &&& is_run(s, r + 1, t, d)
            &&& t == s.len()
        }),
{
    let (p, q, r, t) = ends(a, b, c, d);
    text::lemma_decimal(a as nat);
    text::lemma_decimal(b as nat);
    text::lemma_decimal(c as nat);
    text::lemma_decimal(d as nat);
    assert(s.subrange(0, p) =~= decimal(a as nat));
    assert(s.subrange(p + 1, q) =~= decimal(b as nat));
    assert(s.subrange(q + 1, r) =~= decimal(c as nat));
    assert(s.subrange(r + 1, t) =~= decimal(d as nat));
}

proof fn lemma_run_unique(s: Seq<char>, i: int, j: int, v: u8, k: int, w: u8)
    requires
        is_run(s, i, j, v),
        is_run(s, i, k, w),
    ensures
        j == k,
        v == w,
{
    text::lemma_decimal(v as nat);
    text::lemma_decimal(w as nat);
    if j < k {
        assert(s.subrange(i, k)[j - i] == s[j]);
    }
    if k < j {
        assert(s.subrange(i, j)[k - i] == s[k]);
    }
    text::lemma_decimal_injective(v as nat, w as nat);
}

proof fn lemma_same_runs(s: Seq<char>, x: Seq<u8>, y: Seq<u8>)
    requires
        x.len() == 4,
        y.len() == 4,
        s == dotted(x[0], x[1], x[2], x[3]),
        s == dotted(y[0], y[1], y[2], y[3]),
    ensures
        x == y,
{
    lemma_dotted_runs(s, x[0], x[1], x[2], x[3]);
    lemma_dotted_runs(s, y[0], y[1], y[2], y[3]);
    let (p, q, r, t) = ends(x[0], x[1], x[2], x[3]);
    let (p2, q2, r2, t2) = ends(y[0], y[1], y[2], y[3]);
    lemma_run_unique(s, 0, p, x[0], p2, y[0]);
    lemma_run_unique(s, p + 1, q, x[1], q2, y[1]);
    lemma_run_unique(s, q + 1, r, x[2], r2, y[2]);
    lemma_run_unique(s, r + 1, t, x[3], t2, y[3]);
    assert(x =~= y);
}

proof fn lemma_octet_text(v: u8)
    ensures
        decimal(v as nat) == if v < 10 {
            seq![digit(v as nat)]
        } else if v < 100 {
            seq![digit((v / 10) as nat), digit((v % 10) as nat)]
        } else {
            seq![digit((v / 100) as nat), digit((v / 10 % 10) as nat), digit((v % 10) as nat)]
        },
{
    reveal_with_fuel(decimal, 3);
    assert((v as nat / 10) / 10 == v as nat / 100);
    assert(decimal(v as nat) =~= if v < 10 {
        seq![digit(v as nat)]
    } else if v < 100 {
        seq![digit((v / 10) as nat), digit((v % 10) as nat)]
    } else {
        seq![digit((v / 100) as nat), digit((v / 10 % 10) as nat), digit((v % 10) as nat)]
    });
}

/// The value of a digit.
fn digit_value(c: char) -> (v: u8)
    requires
        is_digit(c),
    ensures
        v < 10,
        c == digit(v as nat),
{
    (c as u32 - 0x30) as u8
}

/// Reads the octet whose decimal digits are the longest run of digits at `i`.
fn read_octet(s: &str, len: usize, i: usize) -> (r: Option<(u8, usize)>)
    requires
        len == s@.len(),
        i <= len,
    ensures
        match r {
            Some((v, j)) => is_run(s@, i as int, j as int, v),
            None => forall|v: u8, j: int| !#[trigger] is_run(s@, i as int, j, v),
        },
{
    let mut j: usize = i;
    while j < len && s.get_char(j) >= '0' && s.get_char(j) <= '9'
        invariant
            len == s@.len(),
            i <= j <= len,
            forall|k: int| i <= k < j ==> is_digit(#[trigger] s@[k]),
        decreases len - j,
    {
        j = j + 1;
    }
    proof {
        assert forall|v: u8, k: int| #[trigger] is_run(s@, i as int, k, v) implies k == j
            && j - i == decimal(v as nat).len() && (forall|n: int|
            0 <= n < decimal(v as nat).len() ==> #[trigger] s@[i + n] == decimal(v as nat)[n]) by {
            text::lemma_decimal(v as nat);
            let run = s@.subrange(i as int, k);
            assert forall|n: int| 0 <= n < run.len() implies #[trigger] s@[i + n] == decimal(
                v as nat,
            )[n] by {
                assert(run[n] == s@[i + n]);
            }
            if k > j {
                assert(run[j - i] == s@[j as int]);
            }
        }
        assert forall|v: u8| true implies decimal(v as nat).len() <= 3 && (#[trigger] decimal(
            v as nat,
        ).len() > 1 ==> decimal(v as nat)[0] != '0') by {
            lemma_octet_text(v);
        }
    }
    if j == i || j - i > 3 {
        return None;
    }
    let first = digit_value(s.get_char(i));
    if j - i == 1 {
        proof {
            lemma_octet_text(first);
            assert(s@.subrange(i as int, j as int) =~= decimal(first as nat));
        }
        return Some((first, j));
    }
    if first == 0 {
        return None;
    }
    let second = digit_value(s.get_char(i + 1));
    if j - i == 2 {
        let v: u8 = first * 10 + second;
        proof {
            lemma_octet_text(v);
            assert(s@.subrange(i as int, j as int) =~= decimal(v as nat));
        }
        return Some((v, j));
    }
    let third = digit_value(s.get_char(i + 2));
    let v: u32 = first as u32 * 100 + second as u32 * 10 + third as u32;
    if v > 255 {
        proof {
            assert forall|w: u8, k: int| !#[trigger] is_run(s@, i as int, k, w) by {
                lemma_octet_text(w);
                if is_run(s@, i as int, k, w) {
                    assert(s@[i + 0] == decimal(w as nat)[0]);
                    assert(s@[i + 1] == decimal(w as nat)[1]);
                    assert(s@[i + 2] == decimal(w as nat)[2]);
                }
            }
        }
        return None;
    }
    let v: u8 = v as u8;
    proof {
        lemma_octet_text(v);
        assert(s@.subrange(i as int, j as int) =~= decimal(v as nat));
    }
    Some((v, j))
}

fn parse_dotted(s: &str, len: usize) -> (r: Option<Ipv4Addr>)
    requires
        len == s@.len(),
    ensures
        match r {
            Some(addr) => s@ == addr.text(),
            None => forall|a: u8, b: u8, c: u8, d: u8| s@ != #[trigger] dotted(a, b, c, d),
        },
{
    proof {
        assert forall|a: u8, b: u8, c: u8, d: u8| s@ == #[trigger] dotted(a, b, c, d) implies ({
            let (p, q, r, t) = ends(a, b, c, d);
            &&& is_run(s@, 0, p, a)
            &&& p < s@.len() && s@[p] == '.'
            &&& is_run(s@, p + 1, q, b)
            &&& q < s@.len() && s@[q] == '.'
            &&& is_run(s@, q + 1, r, c)
            &&& r < s@.len() && s@[r] == '.'
            &&& is_run(s@, r + 1, t, d)
            &&& t == s@.len()
        }) by {
            lemma_dotted_runs(s@, a, b, c, d);
        }
        assert forall|i: int, j: int, v: u8, k: int, w: u8| #[trigger]
            is_run(s@, i, j, v) && #[trigger] is_run(s@, i, k, w) implies j == k && v == w by {
            lemma_run_unique(s@, i, j, v, k, w);
        }
    }
    let (a, p) = match read_octet(s, len, 0) {
        Some(x) => x,
        None => return None,
    };
    if p == len || s.get_char(p) != '.' {
        return None;
    }
    let (b, q) = match read_octet(s, len, p + 1) {
        Some(x) => x,
        None => return None,
    };
    if q == len || s.get_char(q) != '.' {
        return None;
    }
    let (c, r) = match read_octet(s, len, q + 1) {
        Some(x) => x,
        None => return None,
    };
    if r == len || s.get_char(r) != '.' {
        return None;
    }
    let (d, t) = match read_octet(s, len, r + 1) {
        Some(x) => x,
        None => return None,
    };
    if t != len {
        return None;
    }
    let addr = Ipv4Addr::new(a, b, c, d);
    assert(s@ =~= s@.subrange(0, p as int) + seq!['.'] + s@.subrange(p + 1, q as int) + seq!['.']
        + s@.subrange(q + 1, r as int) + seq!['.'] + s@.subrange(r + 1, t as int));
    Some(addr)
}

} // verus!
