//! Device identities.
//!
//! A physical adapter is identified by its USB bus number and device
//! address, rendered as the label `"bus:address"`. The label pins the
//! pair: two different pairs never share a label, so the manager's
//! registry can key on labels alone.

use vstd::arithmetic::div_mod::lemma_div_denominator;
use vstd::prelude::*;
use vstd::string::StringExecFns;

verus! {

/// The character for one decimal digit.
pub open spec fn digit_char(d: int) -> char {
    if d == 0 {
        '0'
    } else if d == 1 {
        '1'
    } else if d == 2 {
        '2'
    } else if d == 3 {
        '3'
    } else if d == 4 {
        '4'
    } else if d == 5 {
        '5'
    } else if d == 6 {
        '6'
    } else if d == 7 {
        '7'
    } else if d == 8 {
        '8'
    } else {
        '9'
    }
}

/// The decimal digits of `n`, most significant first.
pub open spec fn dec_spec(n: int) -> Seq<char>
    decreases n when n >= 0
{
    if 0 <= n < 10 {
        seq![digit_char(n)]
    } else if n >= 10 {
        dec_spec(n / 10).push(digit_char(n % 10))
    } else {
        Seq::empty()
    }
}

/// The identity label of the adapter at `(bus, address)`.
pub open spec fn label_spec(bus: u8, address: u8) -> Seq<char> {
    dec_spec(bus as int) + seq![':'] + dec_spec(address as int)
}

/// A decimal rendering is never empty and never holds a `':'`.
pub proof fn lemma_dec_chars(n: int)
    requires
        n >= 0,
    ensures
        dec_spec(n).len() >= 1,
        n >= 10 ==> dec_spec(n).len() >= 2,
        forall|k: int| 0 <= k < dec_spec(n).len() ==> #[trigger] dec_spec(n)[k] != ':',
    decreases n,
{
    if n >= 10 {
        lemma_dec_chars(n / 10);
    }
}

/// Decimal renderings are injective.
pub proof fn lemma_dec_injective(a: int, b: int)
    requires
        a >= 0,
        b >= 0,
        dec_spec(a) == dec_spec(b),
    ensures
        a == b,
    decreases a,
{
    lemma_dec_chars(a);
    lemma_dec_chars(b);
    if a < 10 && b < 10 {
        assert(dec_spec(a)[0] == digit_char(a));
        assert(dec_spec(b)[0] == digit_char(b));
        assert(digit_char(a) == digit_char(b));
    } else if a >= 10 && b >= 10 {
        assert(dec_spec(a).last() == digit_char(a % 10));
        assert(dec_spec(b).last() == digit_char(b % 10));
        assert(a % 10 == b % 10);
        assert(dec_spec(a).drop_last() =~= dec_spec(a / 10));
        assert(dec_spec(b).drop_last() =~= dec_spec(b / 10));
        lemma_dec_injective(a / 10, b / 10);
    } else {
        // One rendering has a single digit, the other at least two.
        assert(false);
    }
}

/// Law: the identity label determines the `(bus, address)` pair, and the
/// pair determines the label — different pairs always get different
/// labels, the same pair always the same one.
pub proof fn lemma_identity_unique(bus1: u8, addr1: u8, bus2: u8, addr2: u8)
    ensures
        label_spec(bus1, addr1) == label_spec(bus2, addr2) <==> (bus1 == bus2 && addr1
            == addr2),
{
    if label_spec(bus1, addr1) == label_spec(bus2, addr2) {
        let d1 = dec_spec(bus1 as int);
        let e1 = dec_spec(addr1 as int);
        let d2 = dec_spec(bus2 as int);
        let e2 = dec_spec(addr2 as int);
        let s = label_spec(bus1, addr1);
        lemma_dec_chars(bus1 as int);
        lemma_dec_chars(addr1 as int);
        lemma_dec_chars(bus2 as int);
        lemma_dec_chars(addr2 as int);
        // The lone ':' stands at the end of the bus digits in both
        // readings, so the bus digits have the same length.
        assert(s[d1.len() as int] == ':');
        assert(s[d2.len() as int] == ':');
        if d1.len() < d2.len() {
            assert(d2[d1.len() as int] != ':');
            assert(false);
        }
        if d2.len() < d1.len() {
            assert(d1[d2.len() as int] != ':');
            assert(false);
        }
        assert(d1.len() == d2.len());
        assert(s.len() == d1.len() + 1 + e1.len());
        assert(label_spec(bus2, addr2).len() == d2.len() + 1 + e2.len());
        assert(e1.len() == e2.len());
        assert forall|k: int| 0 <= k < d1.len() implies d1[k] == d2[k] by {
            assert(d1[k] == s[k]);
            assert(d2[k] == s[k]);
        }
        assert(d1 =~= d2);
        assert forall|k: int| 0 <= k < e1.len() implies e1[k] == e2[k] by {
            assert(e1[k] == s[d1.len() + 1 + k]);
            assert(e2[k] == s[d2.len() + 1 + k]);
        }
        assert(e1 =~= e2);
        lemma_dec_injective(bus1 as int, bus2 as int);
        lemma_dec_injective(addr1 as int, addr2 as int);
    }
}

/// One decimal digit as a string slice.
fn digit_str(d: u8) -> (s: &'static str)
    requires
        d < 10,
    ensures
        s@ == seq![digit_char(d as int)],
{
    if d == 0 {
        proof {
            reveal_strlit("0");
        }
        "0"
    } else if d == 1 {
        proof {
            reveal_strlit("1");
        }
        "1"
    } else if d == 2 {
        proof {
            reveal_strlit("2");
        }
        "2"
    } else if d == 3 {
        proof {
            reveal_strlit("3");
        }
        "3"
    } else if d == 4 {
        proof {
            reveal_strlit("4");
        }
        "4"
    } else if d == 5 {
        proof {
            reveal_strlit("5");
        }
        "5"
    } else if d == 6 {
        proof {
            reveal_strlit("6");
        }
        "6"
    } else if d == 7 {
        proof {
            reveal_strlit("7");
        }
        "7"
    } else if d == 8 {
        proof {
            reveal_strlit("8");
        }
        "8"
    } else {
        proof {
            reveal_strlit("9");
        }
        "9"
    }
}

/// Append the decimal rendering of `n` to `s`.
fn push_dec_u8(s: &mut String, n: u8)
    ensures
        final(s)@ == old(s)@ + dec_spec(n as int),
{
    let ghost m: int = n as int;
    if n >= 100 {
        s.append(digit_str(n / 100));
    }
    if n >= 10 {
        s.append(digit_str((n / 10) % 10));
    }
    s.append(digit_str(n % 10));
    proof {
        if m < 10 {
            assert(final(s)@ =~= old(s)@ + dec_spec(m));
        } else if m < 100 {
            assert((m / 10) % 10 == m / 10);
            assert(dec_spec(m) == dec_spec(m / 10).push(digit_char(m % 10)));
            assert(final(s)@ =~= old(s)@ + dec_spec(m));
        } else {
            lemma_div_denominator(m, 10, 10);
            assert(m / 10 / 10 == m / 100);
            assert(10 <= m / 10 < 100);
            assert(dec_spec(m / 10) == dec_spec(m / 10 / 10).push(digit_char((m / 10) % 10)));
            assert(dec_spec(m) == dec_spec(m / 10).push(digit_char(m % 10)));
            assert(final(s)@ =~= old(s)@ + dec_spec(m));
        }
    }
}

/// The identity label `"bus:address"` of a physical adapter.
pub fn device_label(bus: u8, address: u8) -> (label: String)
    ensures
        label@ == label_spec(bus, address),
{
    let mut s: String = String::new();
    push_dec_u8(&mut s, bus);
    proof {
        reveal_strlit(":");
    }
    s.append(":");
    push_dec_u8(&mut s, address);
    proof {
        assert(s@ =~= label_spec(bus, address));
    }
    s
}

} // verus!
