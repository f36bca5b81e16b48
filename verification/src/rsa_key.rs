//! The layout of the server's RSA public key: an X.509 `SubjectPublicKeyInfo`
//! in DER, naming `rsaEncryption`, around a PKCS#1 `RSAPublicKey`.

use vstd::prelude::*;

verus! {

/// The DER element with the given tag at index `i` of `s`: where its contents
/// start and how long they are. Lengths up to 65535 bytes are taken, in short
/// form or in long form with one or two length bytes; `None` when the tag
/// differs, the length is in another form, or the contents run past the end.
pub open spec fn der_header(s: Seq<u8>, i: int, tag: u8) -> Option<(int, int)> {
    if i < 0 || i + 2 > s.len() || s[i] != tag {
        None
    } else {
        let b = s[i + 1];
        let (start, len) = if b < 0x80 {
            (i + 2, b as int)
        } else if b == 0x81 && i + 3 <= s.len() {
            (i + 3, s[i + 2] as int)
        } else if b == 0x82 && i + 4 <= s.len() {
            (i + 4, s[i + 2] * 256 + s[i + 3])
        } else {
            (-1, 0)
        };
        if start < 0 || start + len > s.len() {
            None
        } else {
            Some((start, len))
        }
    }
}

/// The DER `AlgorithmIdentifier` of `rsaEncryption` with its `NULL`
/// parameters.
pub open spec fn rsa_algorithm_id() -> Seq<u8> {
    seq![0x30u8, 0x0d, 0x06, 0x09, 0x2a, 0x86, 0x48, 0x86, 0xf7, 0x0d, 0x01, 0x01, 0x01, 0x05, 0x00]
}

/// The modulus, `len` bytes of a DER `INTEGER` at `n`, is positive in its
/// shortest form and at least 88 bits long: one byte under 0x80 that is not
/// zero, or a zero before a byte of 0x80 or more, then at least 11 more bytes.
pub open spec fn modulus_ok(s: Seq<u8>, n: int, len: int) -> bool {
    &&& len >= 12
    &&& (s[n] == 0 && s[n + 1] >= 0x80) || (0 < s[n] < 0x80)
}

/// The length of the modulus's DER contents when `pk` is an RSA public key in
/// the standard layout, with a modulus of at least 88 bits and an exponent
/// that is not negative, and nothing after it; `None` otherwise. The modulus
/// then has one byte fewer than its contents.
pub open spec fn spec_rsa_modulus_len(pk: Seq<u8>) -> Option<nat> {
    match der_header(pk, 0, 0x30) {
        None => None,
        Some((o, ol)) => if o + ol != pk.len() || o + 15 > pk.len() || pk.subrange(o, o + 15)
            != rsa_algorithm_id() {
            None
        } else {
            match der_header(pk, o + 15, 0x03) {
                None => None,
                Some((b, bl)) => if b + bl != pk.len() || bl < 1 || pk[b] != 0 {
                    None
                } else {
                    match der_header(pk, b + 1, 0x30) {
                        None => None,
                        Some((q, ql)) => if q + ql != pk.len() {
                            None
                        } else {
                            match der_header(pk, q, 0x02) {
                                None => None,
                                Some((n, nl)) => match der_header(pk, n + nl, 0x02) {
                                    None => None,
                                    Some((e, el)) => if e + el == pk.len() && modulus_ok(pk, n, nl)
                                        && el >= 1 && pk[e] < 0x80 {
                                        Some(nl as nat)
                                    } else {
                                        None
                                    },
                                },
                            }
                        },
                    }
                },
            }
        },
    }
}

/// Reads the header of the DER element with the given tag at index `i`.
fn der_header_at(s: &[u8], i: usize, tag: u8) -> (r: Option<(usize, usize)>)
    ensures
        match der_header(s@, i as int, tag) {
            Some((a, b)) => r == Some((a as usize, b as usize)),
            None => r is None,
        },
{
    let n = s.len();
    if i >= n || n - i < 2 || s[i] != tag {
        return None;
    }
    let b = s[i + 1];
    let start: usize;
    let len: usize;
    if b < 0x80 {
        start = i + 2;
        len = b as usize;
    } else if b == 0x81 && n - i >= 3 {
        start = i + 3;
        len = s[i + 2] as usize;
    } else if b == 0x82 && n - i >= 4 {
        start = i + 4;
        len = (s[i + 2] as usize) * 256 + (s[i + 3] as usize);
    } else {
        return None;
    }
    if len > n - start {
        return None;
    }
    Some((start, len))
}

/// Whether the 15 bytes at `o` are the `rsaEncryption` algorithm identifier.
fn algorithm_id_at(s: &[u8], o: usize) -> (r: bool)
    ensures
        r == (o + 15 <= s@.len() && s@.subrange(o as int, o + 15) == rsa_algorithm_id()),
{
    if o > s.len() || s.len() - o < 15 {
        return false;
    }
    let id: [u8; 15] = [0x30, 0x0d, 0x06, 0x09, 0x2a, 0x86, 0x48, 0x86, 0xf7, 0x0d, 0x01, 0x01, 0x01, 0x05, 0x00];
    assert(id@ =~= rsa_algorithm_id());
    let mut j: usize = 0;
    while j < 15
        invariant
            j <= 15,
            o + 15 <= s.len(),
            id@ == rsa_algorithm_id(),
            forall|k: int| 0 <= k < j ==> s@[o + k] == id@[k],
        decreases 15 - j,
    {
        if s[o + j] != id[j] {
            assert(s@.subrange(o as int, o + 15)[j as int] != rsa_algorithm_id()[j as int]);
            return false;
        }
        j = j + 1;
    }
    assert(s@.subrange(o as int, o + 15) =~= rsa_algorithm_id());
    true
}

/// The length of the modulus's DER contents when `pk` is an RSA public key in
/// the standard layout (see `spec_rsa_modulus_len`); `None` otherwise.
pub fn rsa_modulus_len(pk: &[u8]) -> (r: Option<usize>)
    ensures
        match spec_rsa_modulus_len(pk@) {
            Some(l) => r == Some(l as usize),
            None => r is None,
        },
{
    let (o, ol) = match der_header_at(pk, 0, 0x30) {
        Some(h) => h,
        None => return None,
    };
    if o + ol != pk.len() || !algorithm_id_at(pk, o) {
        return None;
    }
    let (b, bl) = match der_header_at(pk, o + 15, 0x03) {
        Some(h) => h,
        None => return None,
    };
    if b + bl != pk.len() || bl < 1 || pk[b] != 0 {
        return None;
    }
    let (q, ql) = match der_header_at(pk, b + 1, 0x30) {
        Some(h) => h,
        None => return None,
    };
    if q + ql != pk.len() {
        return None;
    }
    let (n, nl) = match der_header_at(pk, q, 0x02) {
        Some(h) => h,
        None => return None,
    };
    let (e, el) = match der_header_at(pk, n + nl, 0x02) {
        Some(h) => h,
        None => return None,
    };
    if e + el == pk.len() && nl >= 12 && ((pk[n] == 0 && pk[n + 1] >= 0x80) || (0 < pk[n] && pk[n]
        < 0x80)) && el >= 1 && pk[e] < 0x80 {
        Some(nl)
    } else {
        None
    }
}

} // verus!

verus! {

/// A tag number, saturated at 256: numbers above 255 are all told apart from
/// the small ones alone.
pub open spec fn saturate(x: nat) -> nat {
    if x > 256 {
        256
    } else {
        x
    }
}

/// A high tag number in base 128 from index `i` on, before `end`, added to
/// `acc`: the number, saturated, and where its last byte ends.
pub open spec fn der_base128(s: Seq<u8>, i: int, end: int, acc: nat) -> Option<(nat, int)>
    decreases end - i,
{
    if i < 0 || i >= end || end > s.len() {
        None
    } else {
        let v = saturate(acc * 128 + (s[i] % 128) as nat);
        if s[i] < 128 {
            Some((v, i + 1))
        } else {
            der_base128(s, i + 1, end, v)
        }
    }
}

/// The number that `n` bytes from index `i` on make, big-endian.
pub open spec fn der_be_value(s: Seq<u8>, i: int, n: nat) -> nat
    decreases n,
{
    if n == 0 {
        0
    } else {
        der_be_value(s, i, (n - 1) as nat) * 256 + s[i + n - 1] as nat
    }
}

/// The DER element at index `i`, as a lenient decoder reads it before `end`:
/// its class (the top two bits of the first byte), its tag number
/// (saturated), where its contents start and how long they are. Lengths take
/// the short form, or the long form with up to 8 length bytes; `None` when
/// the element runs past `end`.
pub open spec fn der_element(s: Seq<u8>, i: int, end: int) -> Option<(u8, nat, int, nat)> {
    if i < 0 || i >= end || end > s.len() {
        None
    } else {
        let class = s[i] / 64;
        let base = s[i] % 32;
        let tag = if base != 31 {
            Some((base as nat, i + 1))
        } else {
            der_base128(s, i + 1, end, 0)
        };
        match tag {
            None => None,
            Some((t, j)) => if j >= end {
                None
            } else {
                let b = s[j];
                let (len, start) = if b < 128 {
                    (b as nat, j + 1)
                } else {
                    let n = (b - 128) as nat;
                    (der_be_value(s, j + 1, n), j + 1 + n)
                };
                if b >= 128 && (b - 128 > 8 || j + 1 + (b - 128) > end) {
                    None
                } else if start + len > end {
                    None
                } else {
                    Some((class, t, start, len))
                }
            },
        }
    }
}

/// The contents of the first universal `BIT STRING` before `end`, walking
/// elements in order and descending into universal `SEQUENCE`s first:
/// `Some(Some(..))` when found, `Some(None)` when there is none, `None` when
/// an element on the way is malformed.
pub open spec fn first_bit_string(s: Seq<u8>, i: int, end: int) -> Option<Option<(int, nat)>>
    decreases end - i,
{
    if i < 0 || end > s.len() || i >= end {
        Some(None)
    } else {
        match der_element(s, i, end) {
            None => None,
            Some((class, tag, b, l)) => if b <= i {
                None
            } else if class == 0 && tag == 3 {
                Some(Some((b, l)))
            } else if class == 0 && tag == 16 {
                match first_bit_string(s, b, b + l) {
                    Some(None) => first_bit_string(s, b + l, end),
                    other => other,
                }
            } else {
                first_bit_string(s, b + l, end)
            },
        }
    }
}

/// The index of the first byte from `i` on, before `end`, that is not zero.
pub open spec fn skip_zeros(s: Seq<u8>, i: int, end: int) -> int
    decreases end - i,
{
    if i < 0 || i >= end || end > s.len() || s[i] != 0 {
        i
    } else {
        skip_zeros(s, i + 1, end)
    }
}

/// The DER `INTEGER` contents at `n`, `len` bytes long, are a positive number
/// of at least 88 bits: its bytes, leading zeros dropped, take at least 11
/// bytes with the top bit of the first set, or at least 12.
pub open spec fn big_positive(s: Seq<u8>, n: int, len: nat) -> bool {
    let m = skip_zeros(s, n, n + len);
    &&& len >= 1
    &&& s[n] < 128
    &&& m < n + len
    &&& (n + len - m >= 12 || (n + len - m == 11 && s[m] >= 128))
}

/// The public key cannot make `rsa_public_encrypt_pkcs1::encrypt` panic: the
/// first `BIT STRING` it holds, when it holds one and it parses as a sequence
/// of exactly two integers, carries a positive modulus of at least 88 bits and
/// an exponent that is not negative. Every other key makes the call fail
/// without panicking, or is one this check leaves out whatever the crate would
/// do with it (a modulus that is not positive, on which the call never
/// succeeds).
pub open spec fn spec_rsa_call_safe(pk: Seq<u8>) -> bool {
    match first_bit_string(pk, 0, pk.len() as int) {
        Some(Some((b, l))) => if l <= 1 {
            true
        } else {
            let end = b + l;
            match der_element(pk, b + 1, end) {
                None => true,
                Some((c, t, q, ql)) => if !(c == 0 && t == 16) {
                    true
                } else {
                    match der_element(pk, q, q + ql) {
                        None => true,
                        Some((c1, t1, n, nl)) => match der_element(pk, n + nl, q + ql) {
                            None => true,
                            Some((c2, t2, e, el)) => if e + el != q + ql || !(c1 == 0 && t1 == 2
                                && c2 == 0 && t2 == 2) {
                                true
                            } else {
                                big_positive(pk, n, nl) && (el == 0 || pk[e] < 128)
                            },
                        },
                    }
                },
            }
        },
        _ => true,
    }
}

} // verus!

verus! {

/// The number of values `n` big-endian bytes can take: 256 to the `n`.
pub open spec fn byte_range(n: nat) -> nat
    decreases n,
{
    if n == 0 {
        1
    } else {
        byte_range((n - 1) as nat) * 256
    }
}

proof fn lemma_be_value_bound(s: Seq<u8>, i: int, n: nat)
    ensures
        der_be_value(s, i, n) < byte_range(n),
    decreases n,
{
    if n > 0 {
        lemma_be_value_bound(s, i, (n - 1) as nat);
        let v = der_be_value(s, i, (n - 1) as nat);
        let r = byte_range((n - 1) as nat);
        let x = s[i + n - 1] as nat;
        assert(v * 256 + x < r * 256) by (nonlinear_arith)
            requires
                v < r,
                x < 256,
        ;
    }
}

proof fn lemma_byte_range_grows(a: nat, b: nat)
    requires
        a <= b,
    ensures
        byte_range(a) <= byte_range(b),
    decreases b,
{
    if a < b {
        lemma_byte_range_grows(a, (b - 1) as nat);
        assert(byte_range((b - 1) as nat) >= 1) by {
            lemma_byte_range_positive((b - 1) as nat);
        }
    }
}

proof fn lemma_byte_range_positive(n: nat)
    ensures
        byte_range(n) >= 1,
    decreases n,
{
    if n > 0 {
        lemma_byte_range_positive((n - 1) as nat);
    }
}

/// Reads a high tag number in base 128 from index `k` on, before `end`,
/// added to `acc` (see `der_base128`).
fn der_base128_at(s: &[u8], k: usize, end: usize, acc: u32) -> (r: Option<(u32, usize)>)
    requires
        end <= s@.len(),
        acc <= 256,
    ensures
        match r {
            None => der_base128(s@, k as int, end as int, acc as nat) is None,
            Some((t, j)) => der_base128(s@, k as int, end as int, acc as nat) == Some(
                (t as nat, j as int),
            ) && k < j <= end && t <= 256,
        },
    decreases end - k,
{
    if k >= end {
        return None;
    }
    let byte = s[k];
    let mut v: u32 = acc * 128 + (byte % 128) as u32;
    if v > 256 {
        v = 256;
    }
    if byte < 128 {
        Some((v, k + 1))
    } else {
        der_base128_at(s, k + 1, end, v)
    }
}

/// Reads `n` big-endian bytes from index `i` on.
fn der_be_value_at(s: &[u8], i: usize, n: usize) -> (r: u128)
    requires
        n <= 8,
        i + n <= s@.len(),
    ensures
        r == der_be_value(s@, i as int, n as nat),
        r < 18446744073709551616,
{
    let mut value: u128 = 0;
    let mut k: usize = 0;
    proof {
        assert(byte_range(8) == 18446744073709551616) by {
            reveal_with_fuel(byte_range, 9);
        }
    }
    while k < n
        invariant
            k <= n,
            n <= 8,
            i + n <= s.len(),
            value == der_be_value(s@, i as int, k as nat),
            byte_range(8) == 18446744073709551616,
        decreases n - k,
    {
        proof {
            lemma_be_value_bound(s@, i as int, k as nat);
            lemma_byte_range_grows(k as nat, 8);
        }
        let byte = s[i + k];
        assert(value < 18446744073709551616);
        value = value * 256 + byte as u128;
        k = k + 1;
    }
    proof {
        lemma_be_value_bound(s@, i as int, n as nat);
        lemma_byte_range_grows(n as nat, 8);
    }
    value
}

/// Reads the DER element at index `i` before `end` (see `der_element`).
fn der_element_at(s: &[u8], i: usize, end: usize) -> (r: Option<(u8, u32, usize, usize)>)
    requires
        end <= s@.len(),
    ensures
        match r {
            None => der_element(s@, i as int, end as int) is None,
            Some((c, t, b, l)) => der_element(s@, i as int, end as int) == Some(
                (c, t as nat, b as int, l as nat),
            ) && i < b && b + l <= end,
        },
{
    if i >= end {
        return None;
    }
    let class = s[i] / 64;
    let base = s[i] % 32;
    let (tag, j) = if base != 31 {
        (base as u32, i + 1)
    } else {
        match der_base128_at(s, i + 1, end, 0) {
            Some(x) => x,
            None => return None,
        }
    };
    if j >= end {
        return None;
    }
    let b = s[j];
    let start: usize;
    let len: u128;
    if b < 128 {
        start = j + 1;
        len = b as u128;
    } else {
        let n: usize = (b - 128) as usize;
        if n > 8 || n > end - (j + 1) {
            return None;
        }
        len = der_be_value_at(s, j + 1, n);
        start = j + 1 + n;
    }
    if (start as u128) + len > end as u128 {
        return None;
    }
    Some((class, tag, start, len as usize))
}

/// Finds the first universal `BIT STRING` before `end` (see
/// `first_bit_string`).
fn first_bit_string_at(s: &[u8], i: usize, end: usize) -> (r: Option<Option<(usize, usize)>>)
    requires
        i <= end,
        end <= s@.len(),
    ensures
        match r {
            None => first_bit_string(s@, i as int, end as int) is None,
            Some(None) => first_bit_string(s@, i as int, end as int) == Some(None::<(int, nat)>),
            Some(Some((b, l))) => first_bit_string(s@, i as int, end as int) == Some(
                Some((b as int, l as nat)),
            ) && b + l <= end,
        },
    decreases end - i,
{
    if i >= end {
        return Some(None);
    }
    match der_element_at(s, i, end) {
        None => None,
        Some((class, tag, b, l)) => {
            if class == 0 && tag == 3 {
                Some(Some((b, l)))
            } else if class == 0 && tag == 16 {
                match first_bit_string_at(s, b, b + l) {
                    Some(None) => first_bit_string_at(s, b + l, end),
                    other => other,
                }
            } else {
                first_bit_string_at(s, b + l, end)
            }
        },
    }
}

/// The index of the first byte from `i` on, before `end`, that is not zero.
fn skip_zeros_at(s: &[u8], i: usize, end: usize) -> (r: usize)
    requires
        i <= end,
        end <= s@.len(),
    ensures
        r == skip_zeros(s@, i as int, end as int),
        i <= r <= end,
    decreases end - i,
{
    if i >= end || s[i] != 0 {
        i
    } else {
        skip_zeros_at(s, i + 1, end)
    }
}

/// Whether the public key cannot make `rsa_public_encrypt_pkcs1::encrypt`
/// panic (see `spec_rsa_call_safe`).
pub fn rsa_call_is_safe(pk: &[u8]) -> (r: bool)
    ensures
        r == spec_rsa_call_safe(pk@),
{
    let (b, l) = match first_bit_string_at(pk, 0, pk.len()) {
        Some(Some(found)) => found,
        _ => return true,
    };
    if l <= 1 {
        return true;
    }
    let end = b + l;
    let (c, t, q, ql) = match der_element_at(pk, b + 1, end) {
        Some(x) => x,
        None => return true,
    };
    if !(c == 0 && t == 16) {
        return true;
    }
    let (c1, t1, n, nl) = match der_element_at(pk, q, q + ql) {
        Some(x) => x,
        None => return true,
    };
    let (c2, t2, e, el) = match der_element_at(pk, n + nl, q + ql) {
        Some(x) => x,
        None => return true,
    };
    if e + el != q + ql || !(c1 == 0 && t1 == 2 && c2 == 0 && t2 == 2) {
        return true;
    }
    let m = skip_zeros_at(pk, n, n + nl);
    let positive_big = nl >= 1 && pk[n] < 128 && m < n + nl && (n + nl - m >= 12 || (n + nl - m
        == 11 && pk[m] >= 128));
    positive_big && (el == 0 || pk[e] < 128)
}

} // verus!
