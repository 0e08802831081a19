//! The order of strings: byte by byte over their UTF-8 encoding, which is the
//! order of `str`.

use vstd::prelude::*;
use vstd::utf8::{decode_utf8, encode_utf8, encode_utf8_decode_utf8};

verus! {

/// `a` and `b` agree on their first `k` bytes.
pub open spec fn agree(a: Seq<u8>, b: Seq<u8>, k: int) -> bool {
    &&& 0 <= k <= a.len()
    &&& k <= b.len()
    &&& forall|j: int| 0 <= j < k ==> a[j] == b[j]
}

/// `a` comes before `b`: where they first differ, `a` has ended or has the
/// smaller byte.
pub open spec fn bytes_lt(a: Seq<u8>, b: Seq<u8>) -> bool {
    exists|k: int| #[trigger] agree(a, b, k) && k < b.len() && (k == a.len() || a[k] < b[k])
}

/// `a` comes before `b` in the order of strings.
pub open spec fn text_lt(a: Seq<char>, b: Seq<char>) -> bool {
    bytes_lt(encode_utf8(a), encode_utf8(b))
}

/// How one string stands to another.
#[derive(Clone, Copy, Debug, PartialEq, Eq, Structural)]
pub enum Order {
    /// The first comes before the second.
    Before,
    /// The two are the same string.
    Same,
    /// The first comes after the second.
    After,
}

/// How `a` stands to `b`.
pub open spec fn order_of(a: Seq<char>, b: Seq<char>) -> Order {
    if a == b {
        Order::Same
    } else if text_lt(a, b) {
        Order::Before
    } else {
        Order::After
    }
}

/// Strings with the same bytes are the same string.
pub proof fn lemma_same_bytes(a: Seq<char>, b: Seq<char>)
    requires
        encode_utf8(a) == encode_utf8(b),
    ensures
        a == b,
{
    encode_utf8_decode_utf8(a);
    encode_utf8_decode_utf8(b);
    assert(decode_utf8(encode_utf8(a)) == decode_utf8(encode_utf8(b)));
}

/// No string comes before itself.
pub proof fn lemma_lt_irreflexive(a: Seq<char>)
    ensures
        !text_lt(a, a),
{
}

/// Of two strings at most one comes before the other.
pub proof fn lemma_lt_asymmetric(a: Seq<char>, b: Seq<char>)
    requires
        text_lt(a, b),
    ensures
        !text_lt(b, a),
{
    let x = encode_utf8(a);
    let y = encode_utf8(b);
    let k = choose|k: int| #[trigger] agree(x, y, k) && k < y.len() && (k == x.len() || x[k] < y[k]);
    if bytes_lt(y, x) {
        let m = choose|m: int| #[trigger] agree(y, x, m) && m < x.len() && (m == y.len() || y[m] < x[m]);
        if m < k {
            assert(x[m] == y[m]);
        } else if k < m {
            assert(y[k] == x[k]);
        }
    }
}

/// What comes before a string comes before all that this string comes before.
pub proof fn lemma_lt_transitive(a: Seq<char>, b: Seq<char>, c: Seq<char>)
    requires
        text_lt(a, b),
        text_lt(b, c),
    ensures
        text_lt(a, c),
{
    let x = encode_utf8(a);
    let y = encode_utf8(b);
    let z = encode_utf8(c);
    let k = choose|k: int| #[trigger] agree(x, y, k) && k < y.len() && (k == x.len() || x[k] < y[k]);
    let m = choose|m: int| #[trigger] agree(y, z, m) && m < z.len() && (m == y.len() || y[m] < z[m]);
    let n = if k <= m {
        k
    } else {
        m
    };
    assert(agree(x, z, n));
    if k < m {
        assert(y[k] == z[k]);
    } else if m < k {
        assert(x[m] == y[m]);
    }
}

/// Compares two strings.
pub fn compare(a: &str, b: &str) -> (order: Order)
    ensures
        order == order_of(a@, b@),
        order is After ==> text_lt(b@, a@),
{
    let x = a.as_bytes();
    let y = b.as_bytes();
    let mut k: usize = 0;
    while k < x.len() && k < y.len()
        invariant
            x@ == encode_utf8(a@),
            y@ == encode_utf8(b@),
            agree(x@, y@, k as int),
        decreases x.len() - k,
    {
        if x[k] < y[k] {
            proof {
                lemma_lt_asymmetric(a@, b@);
            }
            return Order::Before;
        }
        if x[k] > y[k] {
            proof {
                assert(agree(y@, x@, k as int));
                lemma_lt_asymmetric(b@, a@);
            }
            return Order::After;
        }
        k += 1;
    }
    if k < y.len() {
        proof {
            lemma_lt_asymmetric(a@, b@);
        }
        Order::Before
    } else if k < x.len() {
        proof {
            assert(agree(y@, x@, k as int));
            lemma_lt_asymmetric(b@, a@);
        }
        Order::After
    } else {
        proof {
            assert(x@ =~= y@);
            lemma_same_bytes(a@, b@);
        }
        Order::Same
    }
}

/// Whether two strings are the same.
pub fn str_eq(a: &str, b: &str) -> (same: bool)
    ensures
        same == (a@ == b@),
{
    match compare(a, b) {
        Order::Same => true,
        _ => false,
    }
}

} // verus!
