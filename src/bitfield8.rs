use std::io::{Read, Write};
use vstd::prelude::*;

verus! {

/// A bit-addressed byte array: bit `i` lives in byte `i / 8`, least significant bit first.
#[derive(Debug, Clone)]
pub struct BitField8 {
    pub length: usize,
    pub values: Vec<u8>,
}

/// Why a textual bitfield could not be read.
#[derive(Debug, Clone, Copy, PartialEq, Eq)]
pub enum Error {
    /// The text is not base64, or the bytes behind it are not a zlib stream.
    Decode,
}

/// Number of bytes that hold `n` bits.
pub open spec fn bytes_for(n: nat) -> nat {
    if n % 8 == 0 {
        n / 8
    } else {
        n / 8 + 1
    }
}

/// Whether bit `k` (0..8) of byte `b` is set.
pub open spec fn bit_of(b: u8, k: nat) -> bool {
    (b >> (k as u8)) & 1u8 == 1u8
}

/// Bit `i` of a byte sequence; bits past the end read as unset.
pub open spec fn bit_at(b: Seq<u8>, i: nat) -> bool {
    i / 8 < b.len() && bit_of(b[(i / 8) as int], i % 8)
}

/// The first `len` bits of a byte sequence.
pub open spec fn bits_of(b: Seq<u8>, len: nat) -> Seq<bool> {
    Seq::new(len, |i: int| bit_at(b, i as nat))
}

/// The zlib stream (compression level 6) of a byte sequence.
pub uninterp spec fn zlib_of(b: Seq<u8>) -> Seq<u8>;

/// The standard, padded base64 text of a byte sequence.
pub uninterp spec fn base64_of(b: Seq<u8>) -> Seq<char>;

/// The bytes that standard base64 text decodes to, if it is base64.
pub uninterp spec fn base64_decoded(s: Seq<char>) -> Option<Seq<u8>>;

/// The bytes that a zlib stream inflates to, if it is one.
pub uninterp spec fn inflated(c: Seq<u8>) -> Option<Seq<u8>>;

/// The bytes behind a textual bitfield: base64, then zlib; none when either
/// step fails.
pub open spec fn decoded_text(s: Seq<char>) -> Option<Seq<u8>> {
    match base64_decoded(s) {
        Some(c) => inflated(c),
        None => None,
    }
}

/// A character of the standard base64 alphabet, or the padding character.
pub open spec fn base64_char(c: char) -> bool {
    ('A' <= c && c <= 'Z') || ('a' <= c && c <= 'z') || ('0' <= c && c <= '9') || c == '+' || c
        == '/' || c == '='
}

/// Text with a character that no base64 text holds.
pub open spec fn not_base64(s: Seq<char>) -> bool {
    exists|i: int| 0 <= i < s.len() && !base64_char(s[i])
}

/// The textual form of a bitfield's bytes: base64 over their zlib stream.
pub open spec fn encoded_of(b: Seq<u8>) -> Seq<char> {
    base64_of(zlib_of(b))
}

#[verifier::external_type_specification]
#[verifier::external_body]
pub struct ExDecodeError(base64::DecodeError);

#[verifier::external_type_specification]
#[verifier::external_body]
pub struct ExIoError(std::io::Error);

/// Relies on base64::encode: the standard alphabet with padding.
#[verifier::external_body]
pub(crate) fn base64_encode(b: &[u8]) -> (r: String)
    ensures
        r@ == base64_of(b@),
{
    base64::encode(b)
}

/// Relies on base64::decode: the text of some bytes decodes back to those
/// bytes, a byte outside the alphabet is an invalid byte, and the outcome
/// depends on the input alone.
#[verifier::external_body]
fn base64_decode(s: &str) -> (r: Result<Vec<u8>, base64::DecodeError>)
    ensures
        forall|b: Seq<u8>| #[trigger] base64_of(b) == s@ ==> (r is Ok && r->Ok_0@ == b),
        not_base64(s@) ==> r is Err,
        match r {
            Ok(v) => base64_decoded(s@) == Some(v@),
            Err(_) => base64_decoded(s@) is None,
        },
{
    base64::decode(s)
}

/// Relies on flate2's ZlibEncoder at level 6, written into a `Vec`: writing
/// into memory does not fail, so the stream always comes back.
#[verifier::external_body]
fn zlib_compress(b: &[u8]) -> (r: Result<Vec<u8>, std::io::Error>)
    ensures
        r is Ok,
        r->Ok_0@ == zlib_of(b@),
{
    let mut encoder = flate2::write::ZlibEncoder::new(Vec::new(), flate2::Compression::new(6));
    encoder.write_all(b)?;
    encoder.finish()
}

/// Relies on flate2's ZlibDecoder: the stream of some bytes inflates back to
/// those bytes; the outcome depends on the input alone.
#[verifier::external_body]
fn zlib_decompress(c: &[u8]) -> (r: Result<Vec<u8>, std::io::Error>)
    ensures
        forall|b: Seq<u8>| #[trigger] zlib_of(b) == c@ ==> (r is Ok && r->Ok_0@ == b),
        match r {
            Ok(v) => inflated(c@) == Some(v@),
            Err(_) => inflated(c@) is None,
        },
{
    let mut values = Vec::new();
    let mut decoder = flate2::read::ZlibDecoder::new(c);
    decoder.read_to_end(&mut values)?;
    Ok(values)
}

fn byte_count(n: usize) -> (r: usize)
    ensures
        r == bytes_for(n as nat),
{
    if n % 8 == 0 {
        n / 8
    } else {
        n / 8 + 1
    }
}

proof fn lemma_bit_set(b: u8, k: u8, j: u8)
    requires
        k < 8,
        j < 8,
    ensures
        ((b | (1u8 << k)) >> j) & 1u8 == 1u8 <==> (j == k || (b >> j) & 1u8 == 1u8),
        ((b & !(1u8 << k)) >> j) & 1u8 == 1u8 <==> (j != k && (b >> j) & 1u8 == 1u8),
{
    assert(((b | (1u8 << k)) >> j) & 1u8 == 1u8 <==> (j == k || (b >> j) & 1u8 == 1u8))
        by (bit_vector)
        requires
            k < 8,
            j < 8,
    ;
    assert(((b & !(1u8 << k)) >> j) & 1u8 == 1u8 <==> (j != k && (b >> j) & 1u8 == 1u8))
        by (bit_vector)
        requires
            k < 8,
            j < 8,
    ;
}

proof fn lemma_zero_byte(k: u8)
    requires
        k < 8,
    ensures
        !bit_of(0u8, k as nat),
{
    assert((0u8 >> k) & 1u8 != 1u8) by (bit_vector);
}

impl View for BitField8 {
    type V = Seq<bool>;

    open spec fn view(&self) -> Seq<bool> {
        bits_of(self.values@, self.length as nat)
    }
}

impl BitField8 {
    /// The backing bytes.
    pub open spec fn bytes(&self) -> Seq<u8> {
        self.values@
    }

    /// Exactly as many bytes as the length needs.
    pub open spec fn wf(&self) -> bool {
        self.bytes().len() == bytes_for(self.length as nat)
    }

    /// No bit at or past `length` is set.
    pub open spec fn clean(&self) -> bool {
        forall|i: nat| i >= self.length ==> !#[trigger] bit_at(self.bytes(), i)
    }

    pub proof fn lemma_view(&self)
        ensures
            self@ == bits_of(self.bytes(), self.length as nat),
            self@.len() == self.length,
            self.wf() <==> self.bytes().len() == bytes_for(self.length as nat),
            self.clean() <==> forall|i: nat| i >= self.length ==> !#[trigger] bit_at(self.bytes(), i),
    {
    }

    /// A copy with the same length and bytes.
    pub fn duplicate(&self) -> (r: BitField8)
        ensures
            r.length == self.length,
            r.values@ == self.values@,
            r@ == self@,
    {
        BitField8 { length: self.length, values: self.values.clone() }
    }

    /// A bitfield of `length` unset bits.
    pub fn new(length: usize) -> (r: BitField8)
        ensures
            r.wf(),
            r.clean(),
            r.length == length,
            r@ == Seq::new(length as nat, |i: int| false),
    {
        let n = byte_count(length);
        let values: Vec<u8> = vec![0u8; n];
        let r = BitField8 { length, values };
        assert forall|i: nat| !#[trigger] bit_at(r.values@, i) by {
            if i / 8 < r.values@.len() {
                lemma_zero_byte((i % 8) as u8);
            }
        }
        assert(r@ =~= Seq::new(length as nat, |i: int| false));
        r
    }

    /// Bit `i`; every bit past the backing bytes reads as unset.
    pub fn get(&self, i: usize) -> (r: bool)
        ensures
            r == bit_at(self.bytes(), i as nat),
            self.wf() && i < self.length ==> r == self@[i as int],
    {
        let index = i / 8;
        let bit = (i % 8) as u8;
        if index >= self.values.len() {
            false
        } else {
            let b = self.values[index];
            assert((b >> bit) & 1u8 != 0u8 <==> (b >> bit) & 1u8 == 1u8) by (bit_vector);
            (b >> bit) & 1u8 != 0
        }
    }

    /// Sets bit `i` to `val`, growing the storage with zero bytes (and the length to
    /// the whole of it) when `i` lies past the backing bytes.
    pub fn set(&mut self, i: usize, val: bool)
        requires
            i / 8 < old(self).values.len() || i / 8 + 1 <= usize::MAX / 8,
        ensures
            forall|j: nat| #[trigger] bit_at(final(self).bytes(), j) == if j == i {
                val
            } else {
                bit_at(old(self).bytes(), j)
            },
            i / 8 < old(self).bytes().len() ==> final(self).length == old(self).length,
            i / 8 >= old(self).bytes().len() ==> final(self).length == (i / 8 + 1) * 8,
            final(self).bytes().len() == if i / 8 < old(self).bytes().len() {
                old(self).bytes().len()
            } else {
                (i / 8 + 1) as nat
            },
            old(self).wf() ==> final(self).wf(),
            old(self).clean() && (i < old(self).length || !val) ==> final(self).clean(),
            old(self).wf() && i < old(self).length ==> final(self)@ == old(self)@.update(i as int, val),
    {
        let index = i / 8;
        let k = (i % 8) as u8;
        let ghost old_values = self.values@;
        if index >= self.values.len() {
            self.values.resize(index + 1, 0u8);
            self.length = self.values.len() * 8;
        }
        let ghost grown = self.values@;
        assert forall|j: nat| #[trigger] bit_at(grown, j) == bit_at(old_values, j) by {
            if j / 8 < grown.len() && j / 8 >= old_values.len() {
                lemma_zero_byte((j % 8) as u8);
            }
        }
        let b = self.values[index];
        let nb = if val {
            b | (1u8 << k)
        } else {
            b & !(1u8 << k)
        };
        self.values.set(index, nb);
        assert forall|j: nat| #[trigger] bit_at(self.values@, j) == if j == i {
            val
        } else {
            bit_at(old_values, j)
        } by {
            assert(bit_at(grown, j) == bit_at(old_values, j));
            if j / 8 == index {
                let jk = (j % 8) as u8;
                lemma_bit_set(b, k, jk);
                assert(j == i <==> j % 8 == i % 8) by (nonlinear_arith)
                    requires
                        j / 8 == i / 8,
                ;
                assert(bit_at(self.values@, j) == bit_of(nb, j % 8));
                assert(bit_at(grown, j) == bit_of(b, j % 8));
            } else {
                assert(j != i);
            }
        }
        proof {
            if old(self).wf() && i < old(self).length {
                let len = old(self).length as int;
                assert(i / 8 < bytes_for(len as nat)) by (nonlinear_arith)
                    requires
                        i < len,
                ;
                assert(self.length == old(self).length);
                assert(self@ =~= old(self)@.update(i as int, val));
            }
            if old(self).clean() && (i < old(self).length || !val) {
                assert forall|j: nat| j >= self.length implies !#[trigger] bit_at(self.values@, j) by {
                    if j / 8 >= self.values@.len() {
                    } else if i / 8 >= old_values.len() {
                        let n = self.values@.len() as int;
                        assert(j < n * 8) by (nonlinear_arith)
                            requires
                                j / 8 < n,
                                j >= 0,
                        ;
                        assert(self.length == n * 8);
                    } else if j == i {
                        assert(self.length == old(self).length);
                        assert(!val || i < old(self).length);
                        assert(!bit_at(self.values@, j));
                    } else {
                        assert(self.length == old(self).length);
                        assert(bit_at(self.values@, j) == bit_at(old_values, j));
                        assert(old_values == old(self).bytes());
                        assert(j >= old(self).length);
                        assert(!bit_at(old(self).bytes(), j));
                    }
                }
            }
        }
    }

    /// The highest index below `length - 1` whose bit equals `val`; the last
    /// position is never considered.
    pub fn last_index_of(&self, val: bool) -> (r: Option<usize>)
        requires
            self.wf(),
        ensures
            match r {
                Some(i) => i + 1 < self.length && self@[i as int] == val && forall|j: int|
                    i < j < self.length - 1 ==> self@[j] != val,
                None => forall|j: int| 0 <= j < self.length - 1 ==> self@[j] != val,
            },
    {
        if self.length == 0 {
            return None;
        }
        let mut i: usize = self.length - 1;
        while i > 0
            invariant
                self.wf(),
                0 < self.length,
                i <= self.length - 1,
                forall|j: int| i <= j < self.length - 1 ==> self@[j] != val,
            decreases i,
        {
            i = i - 1;
            if self.get(i) == val {
                return Some(i);
            }
        }
        None
    }

    /// Reads the textual form: base64, then zlib. The length is `length` when
    /// given, else every decoded bit; missing bytes read as unset, and bytes past
    /// the length are dropped.
    pub fn from_encoded(encoded: &str, length: Option<usize>) -> (r: Result<BitField8, Error>)
        ensures
            decodes(encoded@, length, r),
    {
        let compressed = match base64_decode(encoded) {
            Ok(c) => c,
            Err(_) => {
                return Err(Error::Decode);
            },
        };
        let mut values = match zlib_decompress(compressed.as_slice()) {
            Ok(v) => v,
            Err(_) => {
                return Err(Error::Decode);
            },
        };
        let ghost decoded = values@;
        let length = match length {
            Some(l) => l,
            None => {
                if values.len() > usize::MAX / 8 {
                    return Err(Error::Decode);
                }
                values.len() * 8
            },
        };
        let bytes = byte_count(length);
        values.resize(bytes, 0u8);
        let r = BitField8 { length, values };
        assert forall|i: nat| i < length ==> #[trigger] bit_at(r.values@, i) == bit_at(decoded, i) by {
            if i < length && i / 8 < r.values@.len() && i / 8 >= decoded.len() {
                lemma_zero_byte((i % 8) as u8);
            }
        }
        assert(r@ =~= bits_of(decoded, length as nat));
        Ok(r)
    }

    /// Writes the textual form: the bytes through zlib, then base64. It
    /// carries no length.
    pub fn encode(&self) -> (r: String)
        ensures
            r@ == encoded_of(self.values@),
    {
        match zlib_compress(self.values.as_slice()) {
            Ok(c) => base64_encode(c.as_slice()),
            Err(_) => {
                proof {
                    assert(false);
                }
                String::new()
            },
        }
    }
}

impl TryFrom<(String, Option<usize>)> for BitField8 {
    type Error = Error;

    /// Reads the textual form; see `from_encoded`.
    fn try_from(input: (String, Option<usize>)) -> (r: Result<BitField8, Error>)
        ensures
            decodes(input.0@, input.1, r),
    {
        BitField8::from_encoded(input.0.as_str(), input.1)
    }
}

impl vstd::std_specs::convert::TryFromSpecImpl<(String, Option<usize>)> for BitField8 {
    open spec fn obeys_try_from_spec() -> bool {
        false
    }

    open spec fn try_from_spec(input: (String, Option<usize>)) -> Result<BitField8, Error> {
        arbitrary()
    }
}

impl<'a> TryFrom<&'a BitField8> for String {
    type Error = Error;

    /// Writes the textual form; see `BitField8::encode`.
    fn try_from(bit_field: &'a BitField8) -> (r: Result<String, Error>)
        ensures
            r is Ok,
            r->Ok_0@ == encoded_of(bit_field.values@),
    {
        Ok(bit_field.encode())
    }
}

impl<'a> vstd::std_specs::convert::TryFromSpecImpl<&'a BitField8> for String {
    open spec fn obeys_try_from_spec() -> bool {
        false
    }

    open spec fn try_from_spec(bit_field: &'a BitField8) -> Result<String, Error> {
        arbitrary()
    }
}

/// What `from_encoded` gives for `text` and `length`: on success a
/// well-formed bitfield of that length; the bits of any bytes whose textual
/// form `text` is; otherwise a decode error.
pub open spec fn decodes(text: Seq<char>, length: Option<usize>, r: Result<BitField8, Error>) -> bool {
    &&& r is Ok ==> r->Ok_0.wf()
    &&& (length is Some && r is Ok) ==> r->Ok_0.length == length->Some_0
    &&& forall|b: Seq<u8>| #[trigger] encoded_of(b) == text ==> match length {
        Some(l) => r is Ok && r->Ok_0@ == bits_of(b, l as nat),
        None => b.len() * 8 <= usize::MAX ==> (r is Ok && r->Ok_0@ == bits_of(b, b.len() * 8)),
    }
    &&& not_base64(text) ==> r is Err
    &&& match decoded_text(text) {
        None => r is Err,
        Some(b) => match length {
            Some(l) => r is Ok && r->Ok_0@ == bits_of(b, l as nat),
            None => if b.len() * 8 <= usize::MAX {
                r is Ok && r->Ok_0@ == bits_of(b, b.len() * 8)
            } else {
                r is Err
            },
        },
    }
    &&& r is Err ==> r == Err::<BitField8, Error>(Error::Decode)
}

/// Round trip: reading back, at a bitfield's own length, the text that
/// `encode` writes for it succeeds and gives back every bit.
pub proof fn lemma_round_trip(bf: BitField8, back: Result<BitField8, Error>)
    requires
        bf.wf(),
        decodes(encoded_of(bf.values@), Some(bf.length), back),
    ensures
        back is Ok,
        back->Ok_0.length == bf.length,
        back->Ok_0@ == bf@,
{
}

/// Resize: reading a clean bitfield's bytes at a larger length keeps every bit at
/// its position and reads each new position as unset.
pub proof fn lemma_resize(bf: BitField8, m: nat)
    requires
        bf.wf(),
        bf.clean(),
        m >= bf.length,
    ensures
        bits_of(bf.values@, m).len() == m,
        bits_of(bf.values@, m).subrange(0, bf.length as int) == bf@,
        forall|i: int| bf.length <= i < m ==> !#[trigger] bits_of(bf.values@, m)[i],
{
    assert(bits_of(bf.values@, m).subrange(0, bf.length as int) =~= bf@);
    assert forall|i: int| bf.length <= i < m implies !#[trigger] bits_of(bf.values@, m)[i] by {
        assert(!bit_at(bf.values@, i as nat));
    }
}

} // verus!
