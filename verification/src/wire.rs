//! The binary encoding of values that leave the process: numbers with the
//! most significant byte first, and byte strings behind their length.

use vstd::prelude::*;
use crate::text::{append_bytes, slice_bytes};
use crate::types::{be_value, lemma_be_value_bound, pow256};

verus! {

/// The `n` bytes that spell `v`, most significant first.
pub open spec fn be_encode(v: nat, n: nat) -> Seq<u8> {
    Seq::new(n, |i: int| ((v / pow256((n - 1 - i) as nat)) % 256) as u8)
}

/// The encoding of a byte string: its length in four bytes, then the bytes.
pub open spec fn blob_bytes(data: Seq<u8>) -> Seq<u8> {
    be_encode(data.len(), 4) + data
}

/// The encoding of an optional byte string: a zero byte for none; a one
/// byte and the encoded string otherwise.
pub open spec fn option_blob_bytes(data: Option<Seq<u8>>) -> Seq<u8> {
    match data {
        Some(d) => seq![1u8] + blob_bytes(d),
        None => seq![0u8],
    }
}

/// The number that stands for a signed 64-bit value on the wire: the value
/// moved up by `2^63`, so that it is not negative.
pub open spec fn biased(v: i64) -> nat {
    (v + 0x8000_0000_0000_0000) as nat
}

/// The encoding of an optional signed number: a zero byte for none; a one
/// byte and eight bytes of the biased number otherwise.
pub open spec fn option_i64_bytes(v: Option<i64>) -> Seq<u8> {
    match v {
        Some(x) => seq![1u8] + be_encode(biased(x), 8),
        None => seq![0u8],
    }
}

/// Reads a number of `n` bytes from the front: the number and what follows.
pub open spec fn parse_be(bytes: Seq<u8>, n: nat) -> Option<(nat, Seq<u8>)> {
    if bytes.len() < n {
        None
    } else {
        Some((be_value(bytes.take(n as int)), bytes.skip(n as int)))
    }
}

/// Reads `n` bytes from the front: the bytes and what follows.
pub open spec fn parse_raw(bytes: Seq<u8>, n: nat) -> Option<(Seq<u8>, Seq<u8>)> {
    if bytes.len() < n {
        None
    } else {
        Some((bytes.take(n as int), bytes.skip(n as int)))
    }
}

/// Reads an encoded byte string from the front: the string and what follows.
pub open spec fn parse_blob(bytes: Seq<u8>) -> Option<(Seq<u8>, Seq<u8>)> {
    match parse_be(bytes, 4) {
        Some((len, rest)) => parse_raw(rest, len),
        None => None,
    }
}

/// Reads an encoded optional byte string from the front.
pub open spec fn parse_option_blob(bytes: Seq<u8>) -> Option<(Option<Seq<u8>>, Seq<u8>)> {
    match parse_be(bytes, 1) {
        Some((tag, rest)) => if tag == 0 {
            Some((None, rest))
        } else if tag == 1 {
            match parse_blob(rest) {
                Some((data, after)) => Some((Some(data), after)),
                None => None,
            }
        } else {
            None
        },
        None => None,
    }
}

/// Reads an encoded optional signed number from the front.
pub open spec fn parse_option_i64(bytes: Seq<u8>) -> Option<(Option<i64>, Seq<u8>)> {
    match parse_be(bytes, 1) {
        Some((tag, rest)) => if tag == 0 {
            Some((None, rest))
        } else if tag == 1 {
            match parse_be(rest, 8) {
                Some((v, after)) => Some((Some((v - 0x8000_0000_0000_0000) as i64), after)),
                None => None,
            }
        } else {
            None
        },
        None => None,
    }
}

proof fn lemma_pow256_positive(n: nat)
    ensures
        pow256(n) > 0,
    decreases n,
{
    if n > 0 {
        lemma_pow256_positive((n - 1) as nat);
    }
}

/// The first `n - 1` bytes of the encoding of `v` in `n` bytes spell
/// `v / 256`, and the last byte is `v % 256`.
proof fn lemma_be_encode_step(v: nat, n: nat)
    requires
        n > 0,
    ensures
        be_encode(v, n).drop_last() == be_encode(v / 256, (n - 1) as nat),
        be_encode(v, n).last() == (v % 256) as u8,
{
    let whole = be_encode(v, n);
    let front = be_encode(v / 256, (n - 1) as nat);
    assert(pow256(0) == 1);
    assert(whole.last() == ((v / pow256(0)) % 256) as u8);
    assert(v / 1 == v);
    assert forall|i: int| 0 <= i < n - 1 implies whole.drop_last()[i] == front[i] by {
        let e = (n - 2 - i) as nat;
        lemma_pow256_positive(e);
        vstd::arithmetic::div_mod::lemma_div_denominator(v as int, 256, pow256(e) as int);
        assert(pow256((n - 1 - i) as nat) == pow256(e) * 256);
        assert(256 * pow256(e) == pow256(e) * 256) by (nonlinear_arith);
    }
    assert(whole.drop_last() =~= front);
}

/// A number below `256^n` is read back from its encoding in `n` bytes.
pub proof fn lemma_be_round_trip(v: nat, n: nat)
    requires
        v < pow256(n),
    ensures
        be_value(be_encode(v, n)) == v,
        be_encode(v, n).len() == n,
    decreases n,
{
    if n > 0 {
        lemma_be_encode_step(v, n);
        assert(v / 256 < pow256((n - 1) as nat)) by (nonlinear_arith)
            requires
                v < pow256((n - 1) as nat) * 256,
        ;
        lemma_be_round_trip(v / 256, (n - 1) as nat);
    }
}

/// Reading a number from the front of its encoding followed by `tail`
/// gives the number and `tail`.
pub proof fn lemma_parse_be(v: nat, n: nat, tail: Seq<u8>)
    requires
        v < pow256(n),
    ensures
        parse_be(be_encode(v, n) + tail, n) == Some((v, tail)),
{
    lemma_be_round_trip(v, n);
    let whole = be_encode(v, n) + tail;
    assert(whole.take(n as int) =~= be_encode(v, n));
    assert(whole.skip(n as int) =~= tail);
}

/// Reading raw bytes from the front of `data` followed by `tail` gives
/// `data` and `tail`.
pub proof fn lemma_parse_raw(data: Seq<u8>, tail: Seq<u8>)
    ensures
        parse_raw(data + tail, data.len()) == Some((data, tail)),
{
    let whole = data + tail;
    assert(whole.take(data.len() as int) =~= data);
    assert(whole.skip(data.len() as int) =~= tail);
}

/// The powers of 256 that the encodings use.
pub proof fn lemma_pow256_values()
    ensures
        pow256(1) == 0x100,
        pow256(4) == 0x1_0000_0000,
        pow256(8) == 0x1_0000_0000_0000_0000,
        pow256(16) == 0x1_0000_0000_0000_0000_0000_0000_0000_0000,
{
    reveal_with_fuel(pow256, 17);
}

/// Reading a byte string from the front of its encoding followed by `tail`
/// gives the string and `tail`.
pub proof fn lemma_parse_blob(data: Seq<u8>, tail: Seq<u8>)
    requires
        data.len() <= u32::MAX,
    ensures
        parse_blob(blob_bytes(data) + tail) == Some((data, tail)),
{
    lemma_pow256_values();
    lemma_parse_be(data.len(), 4, data + tail);
    assert(blob_bytes(data) + tail =~= be_encode(data.len(), 4) + (data + tail));
    lemma_parse_raw(data, tail);
}

/// Reading an optional byte string from the front of its encoding followed
/// by `tail` gives the option and `tail`.
pub proof fn lemma_parse_option_blob(data: Option<Seq<u8>>, tail: Seq<u8>)
    requires
        data matches Some(d) ==> d.len() <= u32::MAX,
    ensures
        parse_option_blob(option_blob_bytes(data) + tail) == Some((data, tail)),
{
    lemma_pow256_values();
    match data {
        Some(d) => {
            lemma_tag(1, blob_bytes(d) + tail);
            assert(option_blob_bytes(data) + tail =~= seq![1u8] + (blob_bytes(d) + tail));
            lemma_parse_blob(d, tail);
        },
        None => {
            lemma_tag(0, tail);
        },
    }
}

/// Reading an optional signed number from the front of its encoding
/// followed by `tail` gives the option and `tail`.
pub proof fn lemma_parse_option_i64(v: Option<i64>, tail: Seq<u8>)
    ensures
        parse_option_i64(option_i64_bytes(v) + tail) == Some((v, tail)),
{
    lemma_pow256_values();
    match v {
        Some(x) => {
            lemma_tag(1, be_encode(biased(x), 8) + tail);
            assert(option_i64_bytes(v) + tail =~= seq![1u8] + (be_encode(biased(x), 8) + tail));
            lemma_parse_be(biased(x), 8, tail);
        },
        None => {
            lemma_tag(0, tail);
        },
    }
}

proof fn lemma_tag(tag: u8, tail: Seq<u8>)
    ensures
        parse_be(seq![tag] + tail, 1) == Some((tag as nat, tail)),
{
    let whole = seq![tag] + tail;
    assert(whole.take(1) =~= seq![tag]);
    assert(whole.skip(1) =~= tail);
    assert(seq![tag].drop_last() =~= Seq::<u8>::empty());
    reveal_with_fuel(be_value, 2);
}

/// Appends the `n` bytes that spell `v`, most significant first.
pub fn put_be(out: &mut Vec<u8>, v: u128, n: usize)
    requires
        n <= 16,
    ensures
        final(out)@ == old(out)@ + be_encode(v as nat, n as nat),
{
    let mut i: usize = 0;
    while i < n
        invariant
            i <= n <= 16,
            out@.len() == old(out)@.len() + i,
            forall|t: int| 0 <= t < old(out)@.len() ==> out@[t] == old(out)@[t],
            forall|t: int| 0 <= t < i ==> out@[old(out)@.len() + t] == be_encode(v as nat, n as nat)[t],
        decreases n - i,
    {
        let digit: u8 = digit_at(v, n - 1 - i);
        out.push(digit);
        i += 1;
    }
    proof {
        assert(out@ =~= old(out)@ + be_encode(v as nat, n as nat));
    }
}

/// The byte of `v` that stands `index` places from the least significant one.
fn digit_at(v: u128, index: usize) -> (digit: u8)
    requires
        index < 16,
    ensures
        digit as nat == ((v as nat) / pow256(index as nat)) % 256,
{
    let mut rest: u128 = v;
    let mut i: usize = 0;
    proof {
        assert(pow256(0) == 1);
    }
    while i < index
        invariant
            i <= index,
            index < 16,
            rest as nat == (v as nat) / pow256(i as nat),
        decreases index - i,
    {
        proof {
            lemma_pow256_positive(i as nat);
            vstd::arithmetic::div_mod::lemma_div_denominator(v as int, pow256(i as nat) as int, 256);
        }
        rest = rest / 256;
        i += 1;
    }
    (rest % 256) as u8
}

/// Appends the encoding of a byte string. A string longer than four bytes
/// can count is refused and nothing is appended.
pub fn put_blob(out: &mut Vec<u8>, data: &[u8]) -> (done: bool)
    ensures
        done == (data@.len() <= u32::MAX),
        final(out)@ == if done {
            old(out)@ + blob_bytes(data@)
        } else {
            old(out)@
        },
{
    if data.len() > u32::MAX as usize {
        return false;
    }
    put_be(out, data.len() as u128, 4);
    append_bytes(out, data);
    proof {
        assert(out@ =~= old(out)@ + blob_bytes(data@));
    }
    true
}

/// A place in a byte string from which values are read one after another.
pub struct Reader<'a> {
    bytes: &'a [u8],
    at: usize,
}

impl<'a> Reader<'a> {
    #[verifier::type_invariant]
    spec fn well_formed(self) -> bool {
        self.at <= self.bytes@.len()
    }

    /// What has not been read yet.
    pub closed spec fn rest(&self) -> Seq<u8> {
        self.bytes@.skip(self.at as int)
    }

    /// A reader at the front of the bytes.
    pub fn new(bytes: &'a [u8]) -> (reader: Self)
        ensures
            reader.rest() == bytes@,
    {
        proof {
            assert(bytes@.skip(0) =~= bytes@);
        }
        Reader { bytes, at: 0 }
    }

    /// Whether everything has been read.
    pub fn is_done(&self) -> (done: bool)
        ensures
            done == (self.rest().len() == 0),
    {
        proof {
            use_type_invariant(self);
        }
        self.at == self.bytes.len()
    }

    /// Reads a number of `n` bytes. Where fewer are left, nothing is read.
    pub fn take_be(&mut self, n: usize) -> (value: Option<u128>)
        requires
            n <= 16,
        ensures
            match parse_be(old(self).rest(), n as nat) {
                Some((v, rest)) => value == Some(v as u128) && v < pow256(n as nat) && v <= u128::MAX && final(self).rest() == rest,
                None => value.is_none() && final(self).rest() == old(self).rest(),
            },
    {
        proof {
            use_type_invariant(&*self);
        }
        if self.bytes.len() - self.at < n {
            return None;
        }
        let ghost part = self.bytes@.subrange(self.at as int, self.at + n);
        let end: usize = self.at + n;
        let mut value: u128 = 0;
        let mut i: usize = 0;
        while i < n
            invariant
                i <= n <= 16,
                self.at + n == end,
                self.at + n <= self.bytes@.len(),
                part == self.bytes@.subrange(self.at as int, self.at + n),
                value as nat == be_value(part.take(i as int)),
            decreases n - i,
        {
            proof {
                let next = part.take(i + 1);
                assert(next.drop_last() =~= part.take(i as int));
                assert(next.last() == self.bytes@[self.at + i]);
                lemma_be_value_bound(next);
                lemma_pow256_grows((i + 1) as nat, 16);
                lemma_pow256_values();
            }
            value = value * 256 + self.bytes[self.at + i] as u128;
            i += 1;
        }
        proof {
            assert(part.take(n as int) =~= part);
            assert(old(self).rest().take(n as int) =~= part);
            assert(self.bytes@.skip(self.at + n) =~= old(self).rest().skip(n as int));
            lemma_be_value_bound(part);
            lemma_pow256_grows(n as nat, 16);
            lemma_pow256_values();
        }
        self.at = self.at + n;
        Some(value)
    }

    /// Reads `n` bytes. Where fewer are left, nothing is read.
    pub fn take_raw(&mut self, n: usize) -> (data: Option<Vec<u8>>)
        ensures
            match parse_raw(old(self).rest(), n as nat) {
                Some((d, rest)) => data matches Some(got) && got@ == d && final(self).rest() == rest,
                None => data.is_none() && final(self).rest() == old(self).rest(),
            },
    {
        proof {
            use_type_invariant(&*self);
        }
        if self.bytes.len() - self.at < n {
            return None;
        }
        let data = slice_bytes(self.bytes, self.at, self.at + n);
        proof {
            assert(old(self).rest().take(n as int) =~= data@);
            assert(self.bytes@.skip(self.at + n) =~= old(self).rest().skip(n as int));
        }
        self.at = self.at + n;
        Some(data)
    }

    /// Reads an encoded byte string. Where the bytes do not hold one,
    /// `None` is returned.
    pub fn take_blob(&mut self) -> (data: Option<Vec<u8>>)
        ensures
            match parse_blob(old(self).rest()) {
                Some((d, rest)) => data matches Some(got) && got@ == d && final(self).rest() == rest,
                None => data.is_none(),
            },
    {
        let len = match self.take_be(4) {
            Some(len) => len,
            None => {
                return None;
            },
        };
        proof {
            lemma_pow256_values();
        }
        self.take_raw(len as usize)
    }

    /// Reads an encoded optional byte string.
    pub fn take_option_blob(&mut self) -> (data: Option<Option<Vec<u8>>>)
        ensures
            match parse_option_blob(old(self).rest()) {
                Some((d, rest)) => data matches Some(got) && final(self).rest() == rest && match d {
                    Some(bytes) => got matches Some(g) && g@ == bytes,
                    None => got.is_none(),
                },
                None => data.is_none(),
            },
    {
        let tag = match self.take_be(1) {
            Some(tag) => tag,
            None => {
                return None;
            },
        };
        if tag == 0 {
            Some(None)
        } else if tag == 1 {
            match self.take_blob() {
                Some(data) => Some(Some(data)),
                None => None,
            }
        } else {
            None
        }
    }

    /// Reads an encoded optional signed number.
    pub fn take_option_i64(&mut self) -> (value: Option<Option<i64>>)
        ensures
            match parse_option_i64(old(self).rest()) {
                Some((v, rest)) => value == Some(v) && final(self).rest() == rest,
                None => value.is_none(),
            },
    {
        let tag = match self.take_be(1) {
            Some(tag) => tag,
            None => {
                return None;
            },
        };
        if tag == 0 {
            Some(None)
        } else if tag == 1 {
            match self.take_be(8) {
                Some(v) => {
                    proof {
                        lemma_pow256_values();
                    }
                    Some(Some((v as i128 - 0x8000_0000_0000_0000) as i64))
                },
                None => None,
            }
        } else {
            None
        }
    }
}

proof fn lemma_pow256_grows(a: nat, b: nat)
    requires
        a <= b,
    ensures
        pow256(a) <= pow256(b),
    decreases b,
{
    if a < b {
        lemma_pow256_grows(a, (b - 1) as nat);
    }
}

/// Appends the encoding of an optional signed number.
pub fn put_option_i64(out: &mut Vec<u8>, value: Option<i64>)
    ensures
        final(out)@ == old(out)@ + option_i64_bytes(value),
{
    match value {
        Some(v) => {
            out.push(1u8);
            put_be(out, (v as i128 + 0x8000_0000_0000_0000) as u128, 8);
            proof {
                assert(out@ =~= old(out)@ + option_i64_bytes(value));
            }
        },
        None => {
            out.push(0u8);
            proof {
                assert(out@ =~= old(out)@ + option_i64_bytes(value));
            }
        },
    }
}

/// Appends the encoding of an optional byte string. A string longer than
/// four bytes can count is refused and nothing is appended.
pub fn put_option_blob(out: &mut Vec<u8>, data: &Option<Vec<u8>>) -> (done: bool)
    ensures
        done == (data matches Some(d) ==> d@.len() <= u32::MAX),
        final(out)@ == if done {
            old(out)@ + option_blob_bytes(
                match data {
                    Some(d) => Some(d@),
                    None => None,
                },
            )
        } else {
            old(out)@
        },
{
    match data {
        Some(d) => {
            if d.len() > u32::MAX as usize {
                return false;
            }
            out.push(1u8);
            let done = put_blob(out, d.as_slice());
            proof {
                assert(out@ =~= old(out)@ + (seq![1u8] + blob_bytes(d@)));
            }
            true
        },
        None => {
            out.push(0u8);
            proof {
                assert(out@ =~= old(out)@ + seq![0u8]);
            }
            true
        },
    }
}


/// The encoding of an optional number of `n` bytes: a zero byte for none; a
/// one byte and the number otherwise.
pub open spec fn option_be_bytes(v: Option<nat>, n: nat) -> Seq<u8> {
    match v {
        Some(x) => seq![1u8] + be_encode(x, n),
        None => seq![0u8],
    }
}

/// Reads an encoded optional number of `n` bytes from the front.
pub open spec fn parse_option_be(bytes: Seq<u8>, n: nat) -> Option<(Option<nat>, Seq<u8>)> {
    match parse_be(bytes, 1) {
        Some((tag, rest)) => if tag == 0 {
            Some((None, rest))
        } else if tag == 1 {
            match parse_be(rest, n) {
                Some((v, after)) => Some((Some(v), after)),
                None => None,
            }
        } else {
            None
        },
        None => None,
    }
}

/// Reading an optional number from the front of its encoding followed by
/// `tail` gives the option and `tail`.
pub proof fn lemma_parse_option_be(v: Option<nat>, n: nat, tail: Seq<u8>)
    requires
        v matches Some(x) ==> x < pow256(n),
    ensures
        parse_option_be(option_be_bytes(v, n) + tail, n) == Some((v, tail)),
{
    lemma_pow256_values();
    match v {
        Some(x) => {
            lemma_tag(1, be_encode(x, n) + tail);
            assert(option_be_bytes(v, n) + tail =~= seq![1u8] + (be_encode(x, n) + tail));
            lemma_parse_be(x, n, tail);
        },
        None => {
            lemma_tag(0, tail);
        },
    }
}

/// Appends the encoding of an optional number of `n` bytes.
pub fn put_option_be(out: &mut Vec<u8>, value: Option<u128>, n: usize)
    requires
        n <= 16,
    ensures
        final(out)@ == old(out)@ + option_be_bytes(
            match value {
                Some(v) => Some(v as nat),
                None => None,
            },
            n as nat,
        ),
{
    match value {
        Some(v) => {
            out.push(1u8);
            put_be(out, v, n);
            proof {
                assert(out@ =~= old(out)@ + (seq![1u8] + be_encode(v as nat, n as nat)));
            }
        },
        None => {
            out.push(0u8);
            proof {
                assert(out@ =~= old(out)@ + seq![0u8]);
            }
        },
    }
}

/// Appends the encoding of an optional byte string given as a slice. A
/// string longer than four bytes can count is refused and nothing is
/// appended.
pub fn put_option_bytes(out: &mut Vec<u8>, data: Option<&[u8]>) -> (done: bool)
    ensures
        done == (data matches Some(d) ==> d@.len() <= u32::MAX),
        final(out)@ == if done {
            old(out)@ + option_blob_bytes(
                match data {
                    Some(d) => Some(d@),
                    None => None,
                },
            )
        } else {
            old(out)@
        },
{
    match data {
        Some(d) => {
            if d.len() > u32::MAX as usize {
                return false;
            }
            out.push(1u8);
            let done = put_blob(out, d);
            proof {
                assert(out@ =~= old(out)@ + (seq![1u8] + blob_bytes(d@)));
            }
            true
        },
        None => {
            out.push(0u8);
            proof {
                assert(out@ =~= old(out)@ + seq![0u8]);
            }
            true
        },
    }
}

impl<'a> Reader<'a> {
    /// Reads an encoded optional number of `n` bytes.
    pub fn take_option_be(&mut self, n: usize) -> (value: Option<Option<u128>>)
        requires
            n <= 16,
        ensures
            match parse_option_be(old(self).rest(), n as nat) {
                Some((v, rest)) => value matches Some(got) && final(self).rest() == rest && match v {
                    Some(x) => got == Some(x as u128) && x < pow256(n as nat) && x <= u128::MAX,
                    None => got.is_none(),
                },
                None => value.is_none(),
            },
    {
        let tag = match self.take_be(1) {
            Some(tag) => tag,
            None => {
                return None;
            },
        };
        if tag == 0 {
            Some(None)
        } else if tag == 1 {
            match self.take_be(n) {
                Some(v) => Some(Some(v)),
                None => None,
            }
        } else {
            None
        }
    }
}

/// A time on the grid is its own coarsening.
pub proof fn lemma_coarsen_on_grid(secs: int)
    requires
        secs % 300 == 0,
    ensures
        crate::types::coarsen(secs) == secs,
{
    if secs < 0 {
        assert((-secs) % 300 == 0) by (nonlinear_arith)
            requires
                secs % 300 == 0,
        ;
    }
}

} // verus!
