//! Strict encoding: the canonical binary form of the data that commitments
//! are made to.
//!
//! Integers are written in a fixed width, least significant byte first. A
//! collection is written as the number of its items, in 16 bits, and then
//! its items; one with more than 65 535 items cannot be encoded. An optional
//! value is written as the byte 0, or as the byte 1 and then the value.
//! Decoding a value from a byte string fails unless it uses up the string.

mod maps;

pub use maps::{
    gap_free, in_key_order, indexed, lemma_deep_view_of_indexed,
    lemma_deep_view_of_indexed_hash_map, lemma_increasing_order_is_unique, lemma_map_round_trip,
    lemma_walk_is_in_key_order, ordered_keys, strictly_increasing, values_in_key_order,
};
use vstd::prelude::*;

verus! {

broadcast use vstd::std_specs::vec::group_vec_axioms;

/// What goes wrong with the bytes themselves.
#[derive(Clone, Copy, Debug, PartialEq, Eq, Structural)]
pub enum IoErrorKind {
    /// The data ended before the value did.
    UnexpectedEof,
    /// Any other failure of the source or the sink.
    Other,
}

/// The ways in which strict encoding and decoding can fail.
#[derive(Clone, Debug, PartialEq, Eq)]
pub enum Error {
    /// The source or the sink failed.
    Io(IoErrorKind),
    /// The bytes of a string are not valid UTF-8.
    Utf8Conversion,
    /// A collection has more items than a 16-bit count can hold; the
    /// number of its items is given.
    ExceedMaxItems(usize),
    /// The byte that tells whether an optional value is present is neither
    /// 0 nor 1; the byte is given.
    WrongOptionalEncoding(u8),
    /// The value of an enum does not fit into the one byte it is encoded
    /// in; the name of the enum is given.
    EnumValueOverflow(String),
    /// A byte stands for no value of an enum; the name of the enum and the
    /// byte are given.
    EnumValueNotKnown(String, u8),
    /// A decoded value lies outside of the supported range; the name of the
    /// type, the bounds of the range and the value are given.
    ValueOutOfRange(String, u64, u64, u64),
    /// The value ended before the data did.
    DataNotEntirelyConsumed,
    /// The data contradict themselves; a description is given.
    DataIntegrityError(String),
}

/// An [`Error`] with its texts as sequences of characters.
pub enum ErrorView {
    /// The source or the sink failed.
    Io(IoErrorKind),
    /// The bytes of a string are not valid UTF-8.
    Utf8Conversion,
    /// A collection has too many items.
    ExceedMaxItems(usize),
    /// The presence byte of an optional value is neither 0 nor 1.
    WrongOptionalEncoding(u8),
    /// The value of an enum does not fit into one byte.
    EnumValueOverflow(Seq<char>),
    /// A byte stands for no value of an enum.
    EnumValueNotKnown(Seq<char>, u8),
    /// A decoded value lies outside of the supported range.
    ValueOutOfRange(Seq<char>, u64, u64, u64),
    /// The value ended before the data did.
    DataNotEntirelyConsumed,
    /// The data contradict themselves.
    DataIntegrityError(Seq<char>),
}

/// An error is viewed with its texts as sequences of characters.
impl View for Error {
    type V = ErrorView;

    open spec fn view(&self) -> ErrorView {
        match self {
            Error::Io(kind) => ErrorView::Io(*kind),
            Error::Utf8Conversion => ErrorView::Utf8Conversion,
            Error::ExceedMaxItems(len) => ErrorView::ExceedMaxItems(*len),
            Error::WrongOptionalEncoding(byte) => ErrorView::WrongOptionalEncoding(*byte),
            Error::EnumValueOverflow(name) => ErrorView::EnumValueOverflow(name@),
            Error::EnumValueNotKnown(name, byte) => ErrorView::EnumValueNotKnown(name@, *byte),
            Error::ValueOutOfRange(name, low, high, value) => ErrorView::ValueOutOfRange(
                name@,
                *low,
                *high,
                *value,
            ),
            Error::DataNotEntirelyConsumed => ErrorView::DataNotEntirelyConsumed,
            Error::DataIntegrityError(text) => ErrorView::DataIntegrityError(text@),
        }
    }
}

/// The outcome of encoding: the bytes of the value, or why it has none.
pub type Encoding = Result<Seq<u8>, ErrorView>;

/// The outcome of decoding: the value and the number of bytes it took, or
/// why the bytes hold no value.
pub type Decoding<V> = Result<(V, nat), ErrorView>;

/// A byte string that is read from front to back.
pub struct Reader<'a> {
    data: &'a [u8],
    position: usize,
}

impl<'a> Reader<'a> {
    #[verifier::type_invariant]
    spec fn well_formed(&self) -> bool {
        self.position <= self.data@.len()
    }

    /// The whole byte string.
    pub closed spec fn data(&self) -> Seq<u8> {
        self.data@
    }

    /// How many bytes have been read.
    pub closed spec fn consumed(&self) -> nat {
        self.position as nat
    }

    /// The bytes that have not been read yet.
    pub open spec fn remaining(&self) -> Seq<u8> {
        self.data().skip(self.consumed() as int)
    }

    /// Whether this reader is `before` after `count` more bytes were read.
    pub open spec fn advanced(&self, before: &Reader<'a>, count: nat) -> bool {
        &&& self.data() == before.data()
        &&& self.consumed() == before.consumed() + count
        &&& self.consumed() <= self.data().len()
    }

    /// Whether this reader reads the same byte string as `before`.
    pub open spec fn same_data(&self, before: &Reader<'a>) -> bool {
        &&& self.data() == before.data()
        &&& self.consumed() <= self.data().len()
        &&& before.consumed() <= before.data().len()
    }

    /// A reader at the front of `data`.
    pub fn new(data: &'a [u8]) -> (reader: Reader<'a>)
        ensures
            reader.data() == data@,
            reader.consumed() == 0,
            reader.remaining() == data@,
    {
        let reader = Reader { data, position: 0 };
        assert(data@.skip(0) =~= data@);
        reader
    }

    /// How many bytes have been read.
    pub fn position(&self) -> (position: usize)
        ensures
            position == self.consumed(),
            self.consumed() <= self.data().len(),
    {
        proof {
            use_type_invariant(self);
        }
        self.position
    }

    /// How many bytes have not been read yet.
    pub fn left(&self) -> (count: usize)
        ensures
            count == self.remaining().len(),
            self.consumed() <= self.data().len(),
    {
        proof {
            use_type_invariant(self);
        }
        self.data.len() - self.position
    }

    /// Reads one byte. Fails exactly where no byte is left.
    pub fn read_byte(&mut self) -> (byte: Result<u8, Error>)
        ensures
            match byte {
                Ok(value) => old(self).remaining().len() > 0 && value == old(self).remaining()[0]
                    && final(self).advanced(old(self), 1),
                Err(error) => old(self).remaining().len() == 0 && error == Error::Io(
                    IoErrorKind::UnexpectedEof,
                ) && final(self).same_data(old(self)),
            },
    {
        proof {
            use_type_invariant(&*self);
        }
        if self.position < self.data.len() {
            let value = self.data[self.position];
            self.position = self.position + 1;
            Ok(value)
        } else {
            Err(Error::Io(IoErrorKind::UnexpectedEof))
        }
    }
}

/// Whether `written`, the outcome of appending a value to `before`, with
/// `after` as the result, is what `expected` calls for: on success the
/// bytes of the value were appended and counted, on failure the error is
/// the expected one and nothing that was there before was lost.
pub open spec fn encoded(
    before: Seq<u8>,
    after: Seq<u8>,
    written: Result<usize, Error>,
    expected: Encoding,
) -> bool {
    match written {
        Ok(count) => expected matches Ok(bytes) && after == before + bytes && count == bytes.len(),
        Err(error) => expected == Err::<Seq<u8>, ErrorView>(error@) && before.is_prefix_of(after),
    }
}

/// A value that has a strict encoding.
pub trait StrictEncode: DeepView {
    /// The strict encoding of `value`, or the reason why it has none.
    spec fn encoding(value: Self::V) -> Encoding;

    /// Appends the strict encoding of the value to `e` and returns the
    /// number of bytes appended.
    fn strict_encode(&self, e: &mut Vec<u8>) -> (written: Result<usize, Error>)
        ensures
            encoded(old(e)@, final(e)@, written, Self::encoding(self.deep_view())),
    ;
}

/// A value that can be read from its strict encoding.
pub trait StrictDecode: Sized + DeepView {
    /// The value that stands at the front of `data` and the number of
    /// bytes it takes, or the reason why none stands there.
    spec fn decoding(data: Seq<u8>) -> Decoding<Self::V>;

    /// Reads a value from the front of what is left in `d`.
    fn strict_decode(d: &mut Reader) -> (read: Result<Self, Error>)
        ensures
            match read {
                Ok(value) => Self::decoding(old(d).remaining()) matches Ok((model, count))
                    && model == value.deep_view() && final(d).advanced(old(d), count),
                Err(error) => Self::decoding(old(d).remaining()) == Err::<
                    (Self::V, nat),
                    ErrorView,
                >(error@) && final(d).same_data(old(d)),
            },
    ;
}

/// The `width` bytes of `value`, least significant first.
pub open spec fn le_bytes(value: nat, width: nat) -> Seq<u8>
    decreases width,
{
    if width == 0 {
        Seq::empty()
    } else {
        seq![(value % 256) as u8] + le_bytes(value / 256, (width - 1) as nat)
    }
}

/// The number whose bytes, least significant first, are `bytes`.
pub open spec fn le_value(bytes: Seq<u8>) -> nat
    decreases bytes.len(),
{
    if bytes.len() == 0 {
        0
    } else {
        bytes[0] as nat + 256 * le_value(bytes.drop_first())
    }
}

/// 256 to the power of `width`.
pub open spec fn pow256(width: nat) -> nat
    decreases width,
{
    if width == 0 {
        1
    } else {
        256 * pow256((width - 1) as nat)
    }
}

/// The unsigned integer of `width` bytes at the front of `data`.
pub open spec fn le_decoding(data: Seq<u8>, width: nat) -> Decoding<nat> {
    if data.len() < width {
        Err(ErrorView::Io(IoErrorKind::UnexpectedEof))
    } else {
        Ok((le_value(data.take(width as int)), width))
    }
}

/// Bytes written least significant first have the length asked for.
pub proof fn lemma_le_bytes_len(value: nat, width: nat)
    ensures
        le_bytes(value, width).len() == width,
    decreases width,
{
    if width > 0 {
        lemma_le_bytes_len(value / 256, (width - 1) as nat);
    }
}

/// A number read from `bytes` fits into as many bytes.
pub proof fn lemma_le_value_bound(bytes: Seq<u8>)
    ensures
        le_value(bytes) < pow256(bytes.len()),
    decreases bytes.len(),
{
    if bytes.len() > 0 {
        lemma_le_value_bound(bytes.drop_first());
        let rest = le_value(bytes.drop_first());
        let bound = pow256((bytes.len() - 1) as nat);
        assert(bytes[0] as nat + 256 * rest < 256 * bound) by (nonlinear_arith)
            requires
                rest < bound,
                bytes[0] < 256,
        ;
    }
}

/// Reading back what was written gives the number that was written, and
/// takes exactly the bytes that were written, whatever follows them.
pub proof fn lemma_le_round_trip(value: nat, width: nat, rest: Seq<u8>)
    requires
        value < pow256(width),
    ensures
        le_decoding(le_bytes(value, width) + rest, width) == Ok::<(nat, nat), ErrorView>(
            (value, width),
        ),
    decreases width,
{
    lemma_le_bytes_len(value, width);
    let bytes = le_bytes(value, width);
    assert((bytes + rest).take(width as int) =~= bytes);
    lemma_le_value_of_bytes(value, width);
}

/// The number read from the bytes of `value` is `value`.
pub proof fn lemma_le_value_of_bytes(value: nat, width: nat)
    requires
        value < pow256(width),
    ensures
        le_value(le_bytes(value, width)) == value,
    decreases width,
{
    if width > 0 {
        let bound = pow256((width - 1) as nat);
        assert(value / 256 < bound) by (nonlinear_arith)
            requires
                value < 256 * bound,
        ;
        lemma_le_value_of_bytes(value / 256, (width - 1) as nat);
        lemma_le_bytes_len(value / 256, (width - 1) as nat);
        let bytes = le_bytes(value, width);
        assert(bytes.drop_first() =~= le_bytes(value / 256, (width - 1) as nat));
        assert(bytes[0] == (value % 256) as u8);
    }
}

/// Appends the `width` low bytes of `value` to `e`, least significant
/// first.
pub fn write_le(e: &mut Vec<u8>, value: u64, width: usize)
    requires
        width <= 8,
    ensures
        final(e)@ == old(e)@ + le_bytes(value as nat, width as nat),
{
    let ghost before = e@;
    let mut rest = value;
    let mut i: usize = 0;
    while i < width
        invariant
            i <= width <= 8,
            e@ + le_bytes(rest as nat, (width - i) as nat) == before + le_bytes(
                value as nat,
                width as nat,
            ),
        decreases width - i,
    {
        let ghost prior = e@;
        e.push((rest % 256) as u8);
        proof {
            let tail = le_bytes((rest / 256) as nat, (width - i - 1) as nat);
            assert(le_bytes(rest as nat, (width - i) as nat) =~= seq![(rest % 256) as u8] + tail);
            assert(e@ + tail =~= prior + le_bytes(rest as nat, (width - i) as nat));
        }
        rest = rest / 256;
        i += 1;
    }
    assert(e@ + le_bytes(rest as nat, 0) =~= e@);
}

/// Reads an unsigned integer of `width` bytes, least significant first.
/// Fails exactly where fewer than `width` bytes are left.
pub fn read_le(d: &mut Reader, width: usize) -> (read: Result<u64, Error>)
    requires
        width <= 8,
    ensures
        match read {
            Ok(value) => le_decoding(old(d).remaining(), width as nat) == Ok::<
                (nat, nat),
                ErrorView,
            >((value as nat, width as nat)) && final(d).advanced(old(d), width as nat),
            Err(error) => old(d).remaining().len() < width && error == Error::Io(
                IoErrorKind::UnexpectedEof,
            ) && final(d).same_data(old(d)),
        },
{
    if d.left() < width {
        return Err(Error::Io(IoErrorKind::UnexpectedEof));
    }
    let ghost start = *d;
    let ghost bytes = d.remaining().take(width as int);
    let mut digits: Vec<u8> = Vec::new();
    let mut i: usize = 0;
    while i < width
        invariant
            i <= width <= 8,
            d.advanced(&start, i as nat),
            start.remaining().len() >= width,
            bytes == start.remaining().take(width as int),
            digits@ == bytes.take(i as int),
        decreases width - i,
    {
        let ghost here = *d;
        match d.read_byte() {
            Ok(byte) => {
                digits.push(byte);
                proof {
                    assert(here.remaining()[0] == start.remaining()[i as int]);
                    assert(bytes.take(i + 1) =~= bytes.take(i as int).push(bytes[i as int]));
                }
            },
            Err(_) => {
                proof {
                    assert(here.remaining().len() > 0);
                }
                return Err(Error::Io(IoErrorKind::UnexpectedEof));
            },
        }
        i += 1;
    }
    assert(digits@ =~= bytes);
    let mut value: u64 = 0;
    let mut j: usize = width;
    while j > 0
        invariant
            j <= width <= 8,
            digits@ == bytes,
            bytes.len() == width,
            value == le_value(bytes.skip(j as int)),
        decreases j,
    {
        j -= 1;
        proof {
            let tail = bytes.skip(j as int);
            assert(tail.drop_first() =~= bytes.skip(j + 1));
            lemma_le_value_bound(tail);
            lemma_le_value_bound(bytes.skip(j + 1));
            lemma_pow256_small((width - j - 1) as nat);
            lemma_pow256_small((width - j) as nat);
        }
        value = value * 256 + digits[j] as u64;
    }
    assert(bytes.skip(0) =~= bytes);
    Ok(value)
}

/// The powers of 256 up to the eighth.
pub proof fn lemma_pow256_small(width: nat)
    requires
        width <= 8,
    ensures
        pow256(width) <= 0x1_0000_0000_0000_0000,
        width == 0 ==> pow256(width) == 1,
        width == 1 ==> pow256(width) == 0x100,
        width == 2 ==> pow256(width) == 0x1_0000,
        width == 4 ==> pow256(width) == 0x1_0000_0000,
        width == 8 ==> pow256(width) == 0x1_0000_0000_0000_0000,
{
    reveal_with_fuel(pow256, 10);
}

/// A value that is encoded as the bitcoin consensus rules encode it. For
/// such a value the strict encoding is the consensus encoding.
pub trait WithBitcoinEncoding: Sized + DeepView {
    /// The consensus encoding of `value`.
    spec fn consensus_encoding(value: Self::V) -> Seq<u8>;

    /// The value at the front of `data` and the number of bytes it takes.
    spec fn consensus_decoding(data: Seq<u8>) -> Decoding<Self::V>;

    /// Appends the consensus encoding of the value to `e` and returns the
    /// number of bytes appended.
    fn consensus_encode(&self, e: &mut Vec<u8>) -> (count: usize)
        ensures
            final(e)@ == old(e)@ + Self::consensus_encoding(self.deep_view()),
            count == Self::consensus_encoding(self.deep_view()).len(),
    ;

    /// Decoding the consensus encoding of a value gives the value back and
    /// takes exactly its encoding, whatever follows it.
    proof fn consensus_round_trip(value: &Self, rest: Seq<u8>)
        ensures
            Self::consensus_decoding(Self::consensus_encoding(value.deep_view()) + rest) == Ok::<
                (Self::V, nat),
                ErrorView,
            >((value.deep_view(), Self::consensus_encoding(value.deep_view()).len())),
    ;

    /// Reads a value from the front of what is left in `d`.
    fn consensus_decode(d: &mut Reader) -> (read: Result<Self, Error>)
        ensures
            match read {
                Ok(value) => Self::consensus_decoding(old(d).remaining()) matches Ok(
                    (model, count),
                ) && model == value.deep_view() && final(d).advanced(old(d), count),
                Err(error) => Self::consensus_decoding(old(d).remaining()) == Err::<
                    (Self::V, nat),
                    ErrorView,
                >(error@) && final(d).same_data(old(d)),
            },
    ;
}

/// The strict encoding of such a value is its consensus encoding.
impl<T: WithBitcoinEncoding> StrictEncode for T {
    open spec fn encoding(value: T::V) -> Encoding {
        Ok(T::consensus_encoding(value))
    }

    fn strict_encode(&self, e: &mut Vec<u8>) -> (written: Result<usize, Error>) {
        Ok(self.consensus_encode(e))
    }
}

/// Such a value is strictly decoded as the consensus rules decode it.
impl<T: WithBitcoinEncoding> StrictDecode for T {
    open spec fn decoding(data: Seq<u8>) -> Decoding<T::V> {
        T::consensus_decoding(data)
    }

    fn strict_decode(d: &mut Reader) -> (read: Result<Self, Error>) {
        T::consensus_decode(d)
    }
}

/// A byte is encoded as itself.
impl WithBitcoinEncoding for u8 {
    open spec fn consensus_encoding(value: u8) -> Seq<u8> {
        le_bytes(value as nat, 1)
    }

    open spec fn consensus_decoding(data: Seq<u8>) -> Decoding<u8> {
        match le_decoding(data, 1) {
            Ok((value, count)) => Ok((value as u8, count)),
            Err(error) => Err(error),
        }
    }

    proof fn consensus_round_trip(value: &Self, rest: Seq<u8>) {
        lemma_pow256_small(1);
        lemma_le_round_trip(*value as nat, 1, rest);
        lemma_le_bytes_len(*value as nat, 1);
    }

    fn consensus_encode(&self, e: &mut Vec<u8>) -> (count: usize) {
        write_le(e, *self as u64, 1);
        proof {
            lemma_le_bytes_len(*self as nat, 1);
        }
        1
    }

    fn consensus_decode(d: &mut Reader) -> (read: Result<Self, Error>) {
        let ghost data = d.remaining();
        match read_le(d, 1) {
            Ok(value) => {
                proof {
                    lemma_le_value_bound(data.take(1));
                    lemma_pow256_small(1);
                }
                Ok(value as u8)
            },
            Err(error) => Err(error),
        }
    }
}

/// The unsigned number with the same `width` bytes as the signed `value`.
pub open spec fn twos_complement(value: int, width: nat) -> nat {
    if value >= 0 {
        value as nat
    } else {
        (pow256(width) + value) as nat
    }
}

/// The signed number with the same `width` bytes as the unsigned `bits`.
pub open spec fn signed_value(bits: nat, width: nat) -> int {
    if 2 * bits < pow256(width) {
        bits as int
    } else {
        bits - pow256(width)
    }
}

/// Half of 256 to the power of `width`: the number of non-negative values
/// of a signed integer of `width` bytes.
fn half_range(width: usize) -> (half: u64)
    requires
        width == 1 || width == 2 || width == 4 || width == 8,
    ensures
        2 * half == pow256(width as nat),
{
    proof {
        lemma_pow256_small(width as nat);
    }
    if width == 1 {
        0x80
    } else if width == 2 {
        0x8000
    } else if width == 4 {
        0x8000_0000
    } else {
        0x8000_0000_0000_0000
    }
}

/// The unsigned number with the same `width` bytes as `value`.
pub fn to_unsigned(value: i64, width: usize) -> (bits: u64)
    requires
        width == 1 || width == 2 || width == 4 || width == 8,
        -(pow256(width as nat) as int) <= 2 * value < pow256(width as nat),
    ensures
        bits == twos_complement(value as int, width as nat),
        bits < pow256(width as nat),
{
    let half = half_range(width);
    proof {
        lemma_pow256_small(width as nat);
    }
    if value >= 0 {
        value as u64
    } else {
        let below = (-(value + 1)) as u64;
        half + (half - 1 - below)
    }
}

/// The signed number with the same `width` bytes as `bits`.
pub fn to_signed(bits: u64, width: usize) -> (value: i64)
    requires
        width == 1 || width == 2 || width == 4 || width == 8,
        bits < pow256(width as nat),
    ensures
        value == signed_value(bits as nat, width as nat),
        -(pow256(width as nat) as int) <= 2 * value < pow256(width as nat),
{
    let half = half_range(width);
    proof {
        lemma_pow256_small(width as nat);
    }
    if bits < half {
        bits as i64
    } else {
        let above = (bits - half) as i64;
        let below = (half - 1) as i64;
        above - below - 1
    }
}

/// An unsigned integer of 16 bits is encoded in two bytes, least
/// significant first.
impl WithBitcoinEncoding for u16 {
    open spec fn consensus_encoding(value: u16) -> Seq<u8> {
        le_bytes(value as nat, 2)
    }

    open spec fn consensus_decoding(data: Seq<u8>) -> Decoding<u16> {
        match le_decoding(data, 2) {
            Ok((value, count)) => Ok((value as u16, count)),
            Err(error) => Err(error),
        }
    }

    proof fn consensus_round_trip(value: &Self, rest: Seq<u8>) {
        lemma_pow256_small(2);
        lemma_le_round_trip(*value as nat, 2, rest);
        lemma_le_bytes_len(*value as nat, 2);
    }

    fn consensus_encode(&self, e: &mut Vec<u8>) -> (count: usize) {
        write_le(e, *self as u64, 2);
        proof {
            lemma_le_bytes_len(*self as nat, 2);
        }
        2
    }

    fn consensus_decode(d: &mut Reader) -> (read: Result<Self, Error>) {
        let ghost data = d.remaining();
        match read_le(d, 2) {
            Ok(value) => {
                proof {
                    lemma_le_value_bound(data.take(2));
                    lemma_pow256_small(2);
                }
                Ok(value as u16)
            },
            Err(error) => Err(error),
        }
    }
}

/// An unsigned integer of 32 bits is encoded in four bytes, least
/// significant first.
impl WithBitcoinEncoding for u32 {
    open spec fn consensus_encoding(value: u32) -> Seq<u8> {
        le_bytes(value as nat, 4)
    }

    open spec fn consensus_decoding(data: Seq<u8>) -> Decoding<u32> {
        match le_decoding(data, 4) {
            Ok((value, count)) => Ok((value as u32, count)),
            Err(error) => Err(error),
        }
    }

    proof fn consensus_round_trip(value: &Self, rest: Seq<u8>) {
        lemma_pow256_small(4);
        lemma_le_round_trip(*value as nat, 4, rest);
        lemma_le_bytes_len(*value as nat, 4);
    }

    fn consensus_encode(&self, e: &mut Vec<u8>) -> (count: usize) {
        write_le(e, *self as u64, 4);
        proof {
            lemma_le_bytes_len(*self as nat, 4);
        }
        4
    }

    fn consensus_decode(d: &mut Reader) -> (read: Result<Self, Error>) {
        let ghost data = d.remaining();
        match read_le(d, 4) {
            Ok(value) => {
                proof {
                    lemma_le_value_bound(data.take(4));
                    lemma_pow256_small(4);
                }
                Ok(value as u32)
            },
            Err(error) => Err(error),
        }
    }
}

/// An unsigned integer of 64 bits is encoded in eight bytes, least
/// significant first.
impl WithBitcoinEncoding for u64 {
    open spec fn consensus_encoding(value: u64) -> Seq<u8> {
        le_bytes(value as nat, 8)
    }

    open spec fn consensus_decoding(data: Seq<u8>) -> Decoding<u64> {
        match le_decoding(data, 8) {
            Ok((value, count)) => Ok((value as u64, count)),
            Err(error) => Err(error),
        }
    }

    proof fn consensus_round_trip(value: &Self, rest: Seq<u8>) {
        lemma_pow256_small(8);
        lemma_le_round_trip(*value as nat, 8, rest);
        lemma_le_bytes_len(*value as nat, 8);
    }

    fn consensus_encode(&self, e: &mut Vec<u8>) -> (count: usize) {
        write_le(e, *self, 8);
        proof {
            lemma_le_bytes_len(*self as nat, 8);
        }
        8
    }

    fn consensus_decode(d: &mut Reader) -> (read: Result<Self, Error>) {
        let ghost data = d.remaining();
        match read_le(d, 8) {
            Ok(value) => {
                proof {
                    lemma_le_value_bound(data.take(8));
                    lemma_pow256_small(8);
                }
                Ok(value)
            },
            Err(error) => Err(error),
        }
    }
}

/// A signed integer of 8 bits is encoded in one byte, in two's complement.
impl WithBitcoinEncoding for i8 {
    open spec fn consensus_encoding(value: i8) -> Seq<u8> {
        le_bytes(twos_complement(value as int, 1), 1)
    }

    open spec fn consensus_decoding(data: Seq<u8>) -> Decoding<i8> {
        match le_decoding(data, 1) {
            Ok((bits, count)) => Ok((signed_value(bits, 1) as i8, count)),
            Err(error) => Err(error),
        }
    }

    proof fn consensus_round_trip(value: &Self, rest: Seq<u8>) {
        lemma_pow256_small(1);
        let bits = twos_complement(*value as int, 1);
        lemma_le_round_trip(bits, 1, rest);
        lemma_le_bytes_len(bits, 1);
    }

    fn consensus_encode(&self, e: &mut Vec<u8>) -> (count: usize) {
        proof {
            lemma_pow256_small(1);
        }
        write_le(e, to_unsigned(*self as i64, 1), 1);
        proof {
            lemma_le_bytes_len(twos_complement(*self as int, 1), 1);
        }
        1
    }

    fn consensus_decode(d: &mut Reader) -> (read: Result<Self, Error>) {
        let ghost data = d.remaining();
        match read_le(d, 1) {
            Ok(bits) => {
                proof {
                    lemma_le_value_bound(data.take(1));
                    lemma_pow256_small(1);
                }
                let signed = to_signed(bits, 1);
                Ok(signed as i8)
            },
            Err(error) => Err(error),
        }
    }
}

/// A signed integer of 16 bits is encoded in two bytes, in two's
/// complement, least significant first.
impl WithBitcoinEncoding for i16 {
    open spec fn consensus_encoding(value: i16) -> Seq<u8> {
        le_bytes(twos_complement(value as int, 2), 2)
    }

    open spec fn consensus_decoding(data: Seq<u8>) -> Decoding<i16> {
        match le_decoding(data, 2) {
            Ok((bits, count)) => Ok((signed_value(bits, 2) as i16, count)),
            Err(error) => Err(error),
        }
    }

    proof fn consensus_round_trip(value: &Self, rest: Seq<u8>) {
        lemma_pow256_small(2);
        let bits = twos_complement(*value as int, 2);
        lemma_le_round_trip(bits, 2, rest);
        lemma_le_bytes_len(bits, 2);
    }

    fn consensus_encode(&self, e: &mut Vec<u8>) -> (count: usize) {
        proof {
            lemma_pow256_small(2);
        }
        write_le(e, to_unsigned(*self as i64, 2), 2);
        proof {
            lemma_le_bytes_len(twos_complement(*self as int, 2), 2);
        }
        2
    }

    fn consensus_decode(d: &mut Reader) -> (read: Result<Self, Error>) {
        let ghost data = d.remaining();
        match read_le(d, 2) {
            Ok(bits) => {
                proof {
                    lemma_le_value_bound(data.take(2));
                    lemma_pow256_small(2);
                }
                let signed = to_signed(bits, 2);
                Ok(signed as i16)
            },
            Err(error) => Err(error),
        }
    }
}

/// A signed integer of 32 bits is encoded in four bytes, in two's
/// complement, least significant first.
impl WithBitcoinEncoding for i32 {
    open spec fn consensus_encoding(value: i32) -> Seq<u8> {
        le_bytes(twos_complement(value as int, 4), 4)
    }

    open spec fn consensus_decoding(data: Seq<u8>) -> Decoding<i32> {
        match le_decoding(data, 4) {
            Ok((bits, count)) => Ok((signed_value(bits, 4) as i32, count)),
            Err(error) => Err(error),
        }
    }

    proof fn consensus_round_trip(value: &Self, rest: Seq<u8>) {
        lemma_pow256_small(4);
        let bits = twos_complement(*value as int, 4);
        lemma_le_round_trip(bits, 4, rest);
        lemma_le_bytes_len(bits, 4);
    }

    fn consensus_encode(&self, e: &mut Vec<u8>) -> (count: usize) {
        proof {
            lemma_pow256_small(4);
        }
        write_le(e, to_unsigned(*self as i64, 4), 4);
        proof {
            lemma_le_bytes_len(twos_complement(*self as int, 4), 4);
        }
        4
    }

    fn consensus_decode(d: &mut Reader) -> (read: Result<Self, Error>) {
        let ghost data = d.remaining();
        match read_le(d, 4) {
            Ok(bits) => {
                proof {
                    lemma_le_value_bound(data.take(4));
                    lemma_pow256_small(4);
                }
                let signed = to_signed(bits, 4);
                Ok(signed as i32)
            },
            Err(error) => Err(error),
        }
    }
}

/// A signed integer of 64 bits is encoded in eight bytes, in two's
/// complement, least significant first.
impl WithBitcoinEncoding for i64 {
    open spec fn consensus_encoding(value: i64) -> Seq<u8> {
        le_bytes(twos_complement(value as int, 8), 8)
    }

    open spec fn consensus_decoding(data: Seq<u8>) -> Decoding<i64> {
        match le_decoding(data, 8) {
            Ok((bits, count)) => Ok((signed_value(bits, 8) as i64, count)),
            Err(error) => Err(error),
        }
    }

    proof fn consensus_round_trip(value: &Self, rest: Seq<u8>) {
        lemma_pow256_small(8);
        let bits = twos_complement(*value as int, 8);
        lemma_le_round_trip(bits, 8, rest);
        lemma_le_bytes_len(bits, 8);
    }

    fn consensus_encode(&self, e: &mut Vec<u8>) -> (count: usize) {
        proof {
            lemma_pow256_small(8);
        }
        write_le(e, to_unsigned(*self, 8), 8);
        proof {
            lemma_le_bytes_len(twos_complement(*self as int, 8), 8);
        }
        8
    }

    fn consensus_decode(d: &mut Reader) -> (read: Result<Self, Error>) {
        let ghost data = d.remaining();
        match read_le(d, 8) {
            Ok(bits) => {
                proof {
                    lemma_le_value_bound(data.take(8));
                    lemma_pow256_small(8);
                }
                let signed = to_signed(bits, 8);
                Ok(signed)
            },
            Err(error) => Err(error),
        }
    }
}

/// The most items that a collection can hold and still be encoded.
pub const MAX_ITEMS: usize = 0xFFFF;

/// The count of a collection is encoded in 16 bits; a count that does not
/// fit cannot be encoded.
impl StrictEncode for usize {
    open spec fn encoding(value: usize) -> Encoding {
        if value > MAX_ITEMS {
            Err(ErrorView::ExceedMaxItems(value))
        } else {
            Ok(le_bytes(value as nat, 2))
        }
    }

    fn strict_encode(&self, e: &mut Vec<u8>) -> (written: Result<usize, Error>) {
        if *self > MAX_ITEMS {
            return Err(Error::ExceedMaxItems(*self));
        }
        write_le(e, *self as u64, 2);
        proof {
            lemma_le_bytes_len(*self as nat, 2);
        }
        Ok(2)
    }
}

/// A count is decoded from 16 bits.
impl StrictDecode for usize {
    open spec fn decoding(data: Seq<u8>) -> Decoding<usize> {
        match le_decoding(data, 2) {
            Ok((value, count)) => Ok((value as usize, count)),
            Err(error) => Err(error),
        }
    }

    fn strict_decode(d: &mut Reader) -> (read: Result<Self, Error>) {
        let ghost data = d.remaining();
        match read_le(d, 2) {
            Ok(value) => {
                proof {
                    lemma_le_value_bound(data.take(2));
                    lemma_pow256_small(2);
                }
                Ok(value as usize)
            },
            Err(error) => Err(error),
        }
    }
}

/// An optional value is encoded as the byte 0 where it is absent, and as
/// the byte 1 followed by the value where it is present.
impl<T: StrictEncode> StrictEncode for Option<T> {
    open spec fn encoding(value: Option<T::V>) -> Encoding {
        match value {
            None => Ok(seq![0u8]),
            Some(inner) => match T::encoding(inner) {
                Ok(bytes) => Ok(seq![1u8] + bytes),
                Err(error) => Err(error),
            },
        }
    }

    fn strict_encode(&self, e: &mut Vec<u8>) -> (written: Result<usize, Error>) {
        let ghost before = e@;
        match self {
            None => {
                e.push(0);
                assert(e@ =~= before + seq![0u8]);
                Ok(1)
            },
            Some(inner) => {
                e.push(1);
                match inner.strict_encode(e) {
                    Ok(count) => {
                        let total = e.len();
                        proof {
                            let bytes = T::encoding(inner.deep_view())->Ok_0;
                            assert(e@ =~= before + (seq![1u8] + bytes));
                            assert(e@.len() == before.len() + 1 + count);
                        }
                        Ok(count + 1)
                    },
                    Err(error) => Err(error),
                }
            },
        }
    }
}

/// An optional value is decoded from its presence byte and, where that is
/// 1, the value; any other presence byte but 0 is refused.
impl<T: StrictDecode> StrictDecode for Option<T> {
    open spec fn decoding(data: Seq<u8>) -> Decoding<Option<T::V>> {
        if data.len() == 0 {
            Err(ErrorView::Io(IoErrorKind::UnexpectedEof))
        } else if data[0] == 0 {
            Ok((None, 1))
        } else if data[0] == 1 {
            match T::decoding(data.skip(1)) {
                Ok((inner, count)) => Ok((Some(inner), count + 1)),
                Err(error) => Err(error),
            }
        } else {
            Err(ErrorView::WrongOptionalEncoding(data[0]))
        }
    }

    fn strict_decode(d: &mut Reader) -> (read: Result<Self, Error>) {
        let ghost start = *d;
        let tag = match d.read_byte() {
            Ok(tag) => tag,
            Err(error) => {
                return Err(error);
            },
        };
        if tag == 0 {
            Ok(None)
        } else if tag == 1 {
            proof {
                assert(d.remaining() =~= start.remaining().skip(1));
            }
            match T::strict_decode(d) {
                Ok(inner) => Ok(Some(inner)),
                Err(error) => Err(error),
            }
        } else {
            Err(Error::WrongOptionalEncoding(tag))
        }
    }
}

/// The encodings of `items`, one after the other; the first item that has
/// no encoding gives its error to the whole.
pub open spec fn items_encoding<T: StrictEncode>(items: Seq<T::V>) -> Encoding
    decreases items.len(),
{
    if items.len() == 0 {
        Ok(Seq::empty())
    } else {
        match items_encoding::<T>(items.drop_last()) {
            Err(error) => Err(error),
            Ok(front) => match T::encoding(items.last()) {
                Err(error) => Err(error),
                Ok(bytes) => Ok(front + bytes),
            },
        }
    }
}

/// The `count` values that stand one after the other at the front of
/// `data`, and the number of bytes they take together; the first that
/// cannot be read gives its error to the whole.
pub open spec fn items_decoding<T: StrictDecode>(data: Seq<u8>, count: nat) -> Decoding<Seq<T::V>>
    decreases count,
{
    if count == 0 {
        Ok((Seq::empty(), 0))
    } else {
        match items_decoding::<T>(data, (count - 1) as nat) {
            Err(error) => Err(error),
            Ok((front, used)) => match T::decoding(data.skip(used as int)) {
                Err(error) => Err(error),
                Ok((item, more)) => Ok((front.push(item), used + more)),
            },
        }
    }
}

/// An error in the encoding of the first items is the error of the whole.
pub proof fn lemma_items_encoding_fails<T: StrictEncode>(items: Seq<T::V>, upto: int)
    requires
        0 <= upto <= items.len(),
        items_encoding::<T>(items.take(upto)) is Err,
    ensures
        items_encoding::<T>(items) == items_encoding::<T>(items.take(upto)),
    decreases items.len() - upto,
{
    if upto < items.len() {
        assert(items.take(upto + 1).drop_last() =~= items.take(upto));
        lemma_items_encoding_fails::<T>(items, upto + 1);
    } else {
        assert(items.take(upto) =~= items);
    }
}

/// A vector is encoded as the number of its items, in 16 bits, followed by
/// the items in their order.
impl<T: StrictEncode> StrictEncode for Vec<T> {
    open spec fn encoding(value: Seq<T::V>) -> Encoding {
        if value.len() > MAX_ITEMS {
            Err(ErrorView::ExceedMaxItems(value.len() as usize))
        } else {
            match items_encoding::<T>(value) {
                Ok(items) => Ok(le_bytes(value.len(), 2) + items),
                Err(error) => Err(error),
            }
        }
    }

    fn strict_encode(&self, e: &mut Vec<u8>) -> (written: Result<usize, Error>) {
        let ghost before = e@;
        let ghost all = self.deep_view();
        let len = self.len();
        if len > MAX_ITEMS {
            return Err(Error::ExceedMaxItems(len));
        }
        write_le(e, len as u64, 2);
        let ghost head = le_bytes(len as nat, 2);
        proof {
            lemma_le_bytes_len(len as nat, 2);
        }
        let ghost mut done: Seq<u8> = Seq::empty();
        let mut encoded: usize = 2;
        let mut i: usize = 0;
        proof {
            assert(all.take(0) =~= Seq::<T::V>::empty());
            assert(e@ =~= before + head + done);
        }
        while i < len
            invariant
                i <= len <= MAX_ITEMS,
                len == self.len(),
                before == old(e)@,
                all == self.deep_view(),
                all.len() == len,
                head.len() == 2,
                items_encoding::<T>(all.take(i as int)) == Ok::<Seq<u8>, ErrorView>(done),
                e@ == before + head + done,
                encoded == 2 + done.len(),
            decreases len - i,
        {
            let ghost prior = e@;
            proof {
                assert(all.take(i + 1).drop_last() =~= all.take(i as int));
                assert(all.take(i + 1).last() == self[i as int].deep_view());
            }
            match self[i].strict_encode(e) {
                Ok(count) => {
                    let total = e.len();
                    proof {
                        let bytes = T::encoding(self[i as int].deep_view())->Ok_0;
                        done = done + bytes;
                        assert(e@ =~= before + head + done);
                        assert(e@.len() == before.len() + 2 + done.len());
                    }
                    encoded = encoded + count;
                },
                Err(error) => {
                    proof {
                        assert(items_encoding::<T>(all.take(i + 1)) == Err::<Seq<u8>, ErrorView>(
                            error@,
                        ));
                        lemma_items_encoding_fails::<T>(all, i + 1);
                        assert(prior.is_prefix_of(e@));
                        assert(before.is_prefix_of(prior));
                        assert(before.is_prefix_of(e@));
                    }
                    return Err(error);
                },
            }
            i += 1;
        }
        proof {
            assert(all.take(i as int) =~= all);
            assert(e@ =~= before + (head + done));
        }
        Ok(encoded)
    }
}

/// A vector is decoded from the number of its items and as many items.
impl<T: StrictDecode> StrictDecode for Vec<T> {
    open spec fn decoding(data: Seq<u8>) -> Decoding<Seq<T::V>> {
        match le_decoding(data, 2) {
            Err(error) => Err(error),
            Ok((count, _)) => match items_decoding::<T>(data.skip(2), count) {
                Ok((items, used)) => Ok((items, used + 2)),
                Err(error) => Err(error),
            },
        }
    }

    fn strict_decode(d: &mut Reader) -> (read: Result<Self, Error>) {
        let ghost start = *d;
        let len = match read_le(d, 2) {
            Ok(len) => len,
            Err(error) => {
                return Err(error);
            },
        };
        let ghost body = start.remaining().skip(2);
        let ghost first = *d;
        proof {
            assert(d.remaining() =~= body);
        }
        let mut data: Vec<T> = Vec::new();
        let ghost mut used: nat = 0;
        let mut i: u64 = 0;
        proof {
            assert(data.deep_view() =~= Seq::<T::V>::empty());
        }
        while i < len
            invariant
                i <= len,
                start == *old(d),
                first.remaining() == body,
                body == start.remaining().skip(2),
                first.advanced(&start, 2),
                le_decoding(start.remaining(), 2) == Ok::<(nat, nat), ErrorView>((len as nat, 2)),
                d.advanced(&first, used),
                items_decoding::<T>(body, i as nat) == Ok::<(Seq<T::V>, nat), ErrorView>(
                    (data.deep_view(), used),
                ),
            decreases len - i,
        {
            let ghost here = *d;
            let ghost prior = data.deep_view();
            proof {
                assert(here.remaining() =~= body.skip(used as int));
            }
            match T::strict_decode(d) {
                Ok(item) => {
                    proof {
                        let more = T::decoding(here.remaining())->Ok_0.1;
                        used = used + more;
                    }
                    data.push(item);
                    proof {
                        assert(data.deep_view() =~= prior.push(item.deep_view()));
                    }
                },
                Err(error) => {
                    proof {
                        assert(items_decoding::<T>(body, (i + 1) as nat) == Err::<
                            (Seq<T::V>, nat),
                            ErrorView,
                        >(error@));
                        lemma_items_decoding_fails::<T>(body, (i + 1) as nat, len as nat);
                    }
                    return Err(error);
                },
            }
            i += 1;
        }
        Ok(data)
    }
}

/// An error in the decoding of the first items is the error of the whole.
pub proof fn lemma_items_decoding_fails<T: StrictDecode>(data: Seq<u8>, upto: nat, count: nat)
    requires
        upto <= count,
        items_decoding::<T>(data, upto) is Err,
    ensures
        items_decoding::<T>(data, count) == items_decoding::<T>(data, upto),
    decreases count - upto,
{
    if upto < count {
        lemma_items_decoding_fails::<T>(data, upto, (count - 1) as nat);
    }
}

/// The encoding of a byte string: the number of its bytes, in 16 bits,
/// followed by the bytes.
pub open spec fn bytes_encoding(bytes: Seq<u8>) -> Encoding {
    if bytes.len() > MAX_ITEMS {
        Err(ErrorView::ExceedMaxItems(bytes.len() as usize))
    } else {
        Ok(le_bytes(bytes.len(), 2) + bytes)
    }
}

/// The byte string at the front of `data`: a 16-bit count and as many
/// bytes.
pub open spec fn bytes_decoding(data: Seq<u8>) -> Decoding<Seq<u8>> {
    match le_decoding(data, 2) {
        Err(error) => Err(error),
        Ok((count, _)) => if data.len() < 2 + count {
            Err(ErrorView::Io(IoErrorKind::UnexpectedEof))
        } else {
            Ok((data.subrange(2, 2 + count as int), 2 + count))
        },
    }
}

/// Appends the encoding of the byte string `bytes` to `e`.
pub fn write_bytes(bytes: &[u8], e: &mut Vec<u8>) -> (written: Result<usize, Error>)
    ensures
        encoded(old(e)@, final(e)@, written, bytes_encoding(bytes@)),
{
    let ghost before = e@;
    let len = bytes.len();
    if len > MAX_ITEMS {
        return Err(Error::ExceedMaxItems(len));
    }
    write_le(e, len as u64, 2);
    e.extend_from_slice(bytes);
    proof {
        lemma_le_bytes_len(len as nat, 2);
        assert(e@ =~= before + (le_bytes(len as nat, 2) + bytes@));
    }
    Ok(len + 2)
}

/// Reads a byte string from the front of what is left in `d`. Fails
/// exactly where the count is cut short or fewer bytes are left than it
/// announces.
pub fn read_bytes(d: &mut Reader) -> (read: Result<Vec<u8>, Error>)
    ensures
        match read {
            Ok(bytes) => bytes_decoding(old(d).remaining()) == Ok::<(Seq<u8>, nat), ErrorView>(
                (bytes@, (2 + bytes@.len()) as nat),
            ) && final(d).advanced(old(d), (2 + bytes@.len()) as nat),
            Err(error) => bytes_decoding(old(d).remaining()) == Err::<(Seq<u8>, nat), ErrorView>(
                error@,
            ) && final(d).same_data(old(d)),
        },
{
    let ghost start = *d;
    let len = match read_le(d, 2) {
        Ok(len) => len,
        Err(error) => {
            return Err(error);
        },
    };
    proof {
        lemma_le_value_bound(start.remaining().take(2));
        lemma_pow256_small(2);
    }
    let ghost first = *d;
    if (d.left() as u64) < len {
        return Err(Error::Io(IoErrorKind::UnexpectedEof));
    }
    let mut bytes: Vec<u8> = Vec::new();
    let mut i: u64 = 0;
    while i < len
        invariant
            i <= len < 0x1_0000,
            start == *old(d),
            first.advanced(&start, 2),
            first.remaining().len() >= len,
            d.advanced(&first, i as nat),
            bytes@ == first.remaining().take(i as int),
        decreases len - i,
    {
        let ghost here = *d;
        match d.read_byte() {
            Ok(byte) => {
                bytes.push(byte);
                proof {
                    assert(here.remaining()[0] == first.remaining()[i as int]);
                    assert(first.remaining().take(i + 1) =~= first.remaining().take(
                        i as int,
                    ).push(byte));
                }
            },
            Err(error) => {
                proof {
                    assert(here.remaining().len() > 0);
                }
                return Err(Error::Io(IoErrorKind::UnexpectedEof));
            },
        }
        i += 1;
    }
    proof {
        assert(first.remaining() =~= start.remaining().skip(2));
        assert(bytes@ =~= start.remaining().subrange(2, 2 + len as int));
    }
    Ok(bytes)
}

/// Reading back an encoded byte string gives the byte string, whatever
/// follows it.
pub proof fn lemma_bytes_round_trip(bytes: Seq<u8>, rest: Seq<u8>)
    requires
        bytes.len() <= MAX_ITEMS,
    ensures
        bytes_encoding(bytes) matches Ok(code) && bytes_decoding(code + rest) == Ok::<
            (Seq<u8>, nat),
            ErrorView,
        >((bytes, code.len())),
{
    let head = le_bytes(bytes.len(), 2);
    let code = head + bytes;
    lemma_pow256_small(2);
    lemma_le_bytes_len(bytes.len(), 2);
    lemma_le_round_trip(bytes.len(), 2, bytes + rest);
    assert(head + (bytes + rest) =~= code + rest);
    assert((code + rest).subrange(2, 2 + bytes.len() as int) =~= bytes);
}

/// Bytes one after the other are their own encoding.
pub proof fn lemma_bytes_are_their_items(bytes: Seq<u8>)
    ensures
        items_encoding::<u8>(bytes) == Ok::<Seq<u8>, ErrorView>(bytes),
    decreases bytes.len(),
{
    if bytes.len() > 0 {
        lemma_bytes_are_their_items(bytes.drop_last());
        reveal_with_fuel(le_bytes, 2);
        assert(le_bytes(bytes.last() as nat, 1) =~= seq![bytes.last()]);
        assert(bytes.drop_last() + seq![bytes.last()] =~= bytes);
    } else {
        assert(bytes =~= Seq::<u8>::empty());
    }
}

/// A byte string has the encoding of the vector of its bytes.
pub proof fn lemma_byte_string_is_a_list(bytes: Seq<u8>)
    ensures
        bytes_encoding(bytes) == <Vec<u8>>::encoding(bytes),
{
    lemma_bytes_are_their_items(bytes);
}

/// A byte string is encoded as its length and its bytes.
impl<'a> StrictEncode for &'a [u8] {
    open spec fn encoding(value: Seq<u8>) -> Encoding {
        bytes_encoding(value)
    }

    fn strict_encode(&self, e: &mut Vec<u8>) -> (written: Result<usize, Error>) {
        assert(self.deep_view() =~= self@);
        write_bytes(*self, e)
    }
}

/// Calls `Vec::into_boxed_slice`. Trusted: the box holds the bytes of the
/// vector, in their order.
#[verifier::external_body]
fn into_boxed_slice(bytes: Vec<u8>) -> (boxed: Box<[u8]>)
    ensures
        boxed@ == bytes@,
{
    bytes.into_boxed_slice()
}

/// A boxed byte string is encoded as its length and its bytes.
impl StrictEncode for Box<[u8]> {
    open spec fn encoding(value: Seq<u8>) -> Encoding {
        bytes_encoding(value)
    }

    fn strict_encode(&self, e: &mut Vec<u8>) -> (written: Result<usize, Error>) {
        assert(self.deep_view() =~= self@);
        write_bytes(&**self, e)
    }
}

/// A boxed byte string is decoded from its length and as many bytes.
impl StrictDecode for Box<[u8]> {
    open spec fn decoding(data: Seq<u8>) -> Decoding<Seq<u8>> {
        bytes_decoding(data)
    }

    fn strict_decode(d: &mut Reader) -> (read: Result<Self, Error>) {
        match read_bytes(d) {
            Ok(bytes) => {
                let boxed = into_boxed_slice(bytes);
                assert(boxed.deep_view() =~= boxed@);
                Ok(boxed)
            },
            Err(error) => Err(error),
        }
    }
}

/// A string slice is encoded as the byte string of its UTF-8 form.
impl<'a> StrictEncode for &'a str {
    open spec fn encoding(value: Seq<char>) -> Encoding {
        bytes_encoding(vstd::utf8::encode_utf8(value))
    }

    fn strict_encode(&self, e: &mut Vec<u8>) -> (written: Result<usize, Error>) {
        write_bytes(self.as_bytes(), e)
    }
}

/// A string is encoded as the byte string of its UTF-8 form.
impl StrictEncode for String {
    open spec fn encoding(value: Seq<char>) -> Encoding {
        bytes_encoding(vstd::utf8::encode_utf8(value))
    }

    fn strict_encode(&self, e: &mut Vec<u8>) -> (written: Result<usize, Error>) {
        write_bytes(self.as_str().as_bytes(), e)
    }
}

/// Calls `String::from_utf8`. Trusted: it gives a string exactly where the
/// bytes are valid UTF-8, and the string is the one they spell.
#[verifier::external_body]
fn string_from_utf8(bytes: Vec<u8>) -> (text: Option<String>)
    ensures
        text matches Some(string) ==> vstd::utf8::valid_utf8(bytes@) && string@
            == vstd::utf8::decode_utf8(bytes@),
        text is None ==> !vstd::utf8::valid_utf8(bytes@),
{
    String::from_utf8(bytes).ok()
}

/// A string is decoded from a byte string that is valid UTF-8.
impl StrictDecode for String {
    open spec fn decoding(data: Seq<u8>) -> Decoding<Seq<char>> {
        match bytes_decoding(data) {
            Err(error) => Err(error),
            Ok((bytes, count)) => if vstd::utf8::valid_utf8(bytes) {
                Ok((vstd::utf8::decode_utf8(bytes), count))
            } else {
                Err(ErrorView::Utf8Conversion)
            },
        }
    }

    fn strict_decode(d: &mut Reader) -> (read: Result<Self, Error>) {
        let bytes = match read_bytes(d) {
            Ok(bytes) => bytes,
            Err(error) => {
                return Err(error);
            },
        };
        match string_from_utf8(bytes) {
            Some(text) => Ok(text),
            None => Err(Error::Utf8Conversion),
        }
    }
}

/// The strict encoding of `data` as a byte vector of its own.
pub fn strict_encode<T: StrictEncode>(data: &T) -> (bytes: Result<Vec<u8>, Error>)
    ensures
        match bytes {
            Ok(code) => T::encoding(data.deep_view()) == Ok::<Seq<u8>, ErrorView>(code@),
            Err(error) => T::encoding(data.deep_view()) == Err::<Seq<u8>, ErrorView>(error@),
        },
{
    let mut encoder: Vec<u8> = Vec::new();
    match data.strict_encode(&mut encoder) {
        Ok(_) => {
            proof {
                let code = T::encoding(data.deep_view())->Ok_0;
                assert(encoder@ =~= code);
            }
            Ok(encoder)
        },
        Err(error) => Err(error),
    }
}

/// The outcome of decoding a value from the whole of `data`: the value
/// that stands at its front where that value takes all the bytes.
pub open spec fn whole_decoding<V>(front: Decoding<V>, len: nat) -> Result<V, ErrorView> {
    match front {
        Err(error) => Err(error),
        Ok((value, count)) => if count == len {
            Ok(value)
        } else {
            Err(ErrorView::DataNotEntirelyConsumed)
        },
    }
}

/// Decodes a value from the whole of `data`. Fails where no value stands
/// at the front of the data, and with
/// [`Error::DataNotEntirelyConsumed`] where the value does not take all of
/// the data.
pub fn strict_decode<T: StrictDecode>(data: &[u8]) -> (value: Result<T, Error>)
    ensures
        match value {
            Ok(decoded) => whole_decoding(T::decoding(data@), data@.len()) == Ok::<
                T::V,
                ErrorView,
            >(decoded.deep_view()),
            Err(error) => whole_decoding(T::decoding(data@), data@.len()) == Err::<
                T::V,
                ErrorView,
            >(error@),
        },
{
    let mut decoder = Reader::new(data);
    let decoded = match T::strict_decode(&mut decoder) {
        Ok(decoded) => decoded,
        Err(error) => {
            return Err(error);
        },
    };
    if decoder.position() == data.len() {
        Ok(decoded)
    } else {
        Err(Error::DataNotEntirelyConsumed)
    }
}

/// The character of a decimal digit.
pub open spec fn digit_char(digit: nat) -> char {
    if digit == 0 {
        '0'
    } else if digit == 1 {
        '1'
    } else if digit == 2 {
        '2'
    } else if digit == 3 {
        '3'
    } else if digit == 4 {
        '4'
    } else if digit == 5 {
        '5'
    } else if digit == 6 {
        '6'
    } else if digit == 7 {
        '7'
    } else if digit == 8 {
        '8'
    } else {
        '9'
    }
}

/// The decimal numeral of `value`, without leading zeros.
pub open spec fn decimal_text(value: nat) -> Seq<char>
    decreases value,
{
    if value < 10 {
        seq![digit_char(value)]
    } else {
        decimal_text(value / 10) + seq![digit_char(value % 10)]
    }
}

/// The text of one decimal digit.
fn digit_text(digit: u64) -> (text: &'static str)
    requires
        digit < 10,
    ensures
        text@ == seq![digit_char(digit as nat)],
{
    if digit == 0 {
        proof {
            reveal_strlit("0");
        }
        "0"
    } else if digit == 1 {
        proof {
            reveal_strlit("1");
        }
        "1"
    } else if digit == 2 {
        proof {
            reveal_strlit("2");
        }
        "2"
    } else if digit == 3 {
        proof {
            reveal_strlit("3");
        }
        "3"
    } else if digit == 4 {
        proof {
            reveal_strlit("4");
        }
        "4"
    } else if digit == 5 {
        proof {
            reveal_strlit("5");
        }
        "5"
    } else if digit == 6 {
        proof {
            reveal_strlit("6");
        }
        "6"
    } else if digit == 7 {
        proof {
            reveal_strlit("7");
        }
        "7"
    } else if digit == 8 {
        proof {
            reveal_strlit("8");
        }
        "8"
    } else {
        proof {
            reveal_strlit("9");
        }
        "9"
    }
}

/// Writes `value` as a decimal numeral.
pub fn decimal(value: u64) -> (text: String)
    ensures
        text@ == decimal_text(value as nat),
    decreases value,
{
    if value < 10 {
        String::from_str(digit_text(value))
    } else {
        let mut text = decimal(value / 10);
        text.append(digit_text(value % 10));
        text
    }
}

/// What an [`IoErrorKind`] is called in a message.
pub open spec fn io_error_text(kind: IoErrorKind) -> Seq<char> {
    match kind {
        IoErrorKind::UnexpectedEof => "unexpected end of file"@,
        IoErrorKind::Other => "other error"@,
    }
}

/// The message that describes `error`.
pub open spec fn message_text(error: ErrorView) -> Seq<char> {
    match error {
        ErrorView::Io(kind) => "I/O error: "@ + io_error_text(kind),
        ErrorView::Utf8Conversion => "String data are not in valid UTF-8 encoding"@,
        ErrorView::ExceedMaxItems(size) => "A collection (slice, vector or other type) has "@
            + decimal_text(size as nat)
            + " items, which exceeds maximum allowed value for `u16` type representing \
                collection size according to the LNPBP-6 standard)"@,
        ErrorView::WrongOptionalEncoding(significator) => "Invalid value "@ + decimal_text(
            significator as nat,
        ) + " met as a significator byte, which must be equal to either 0 (no value) or 1"@,
        ErrorView::EnumValueOverflow(enum_name) =>
            "Enums are encoded as a `u8`-based values; the provided enum "@ + enum_name
            + " has underlying primitive type that does not fit into `u8` value"@,
        ErrorView::EnumValueNotKnown(enum_name, value) => "An unsupported value "@ + decimal_text(
            value as nat,
        ) + " for enum "@ + enum_name + " encountered during decode operation"@,
        ErrorView::ValueOutOfRange(data_type, low, high, value) =>
            "Decoding resulted in value "@ + decimal_text(value as nat) + " for type "@
            + data_type + " that exceeds the supported range "@ + decimal_text(low as nat)
            + ".."@ + decimal_text(high as nat),
        ErrorView::DataNotEntirelyConsumed =>
            "Data were not consumed entirely during strict decoding procedure"@,
        ErrorView::DataIntegrityError(text) => "Data integrity error: "@ + text,
    }
}

impl IoErrorKind {
    /// What the kind is called in a message.
    pub fn description(&self) -> (text: &'static str)
        ensures
            text@ == io_error_text(*self),
    {
        match self {
            IoErrorKind::UnexpectedEof => "unexpected end of file",
            IoErrorKind::Other => "other error",
        }
    }
}

impl Error {
    /// The message that describes the error.
    pub fn to_string(&self) -> (text: String)
        ensures
            text@ == message_text(self@),
    {
        match self {
            Error::Io(kind) => String::from_str("I/O error: ").concat(kind.description()),
            Error::Utf8Conversion => String::from_str(
                "String data are not in valid UTF-8 encoding",
            ),
            Error::ExceedMaxItems(size) => String::from_str(
                "A collection (slice, vector or other type) has ",
            ).concat(decimal(*size as u64).as_str()).concat(
                " items, which exceeds maximum allowed value for `u16` type representing \
                collection size according to the LNPBP-6 standard)",
            ),
            Error::WrongOptionalEncoding(significator) => String::from_str(
                "Invalid value ",
            ).concat(decimal(*significator as u64).as_str()).concat(
                " met as a significator byte, which must be equal to either 0 (no value) or 1",
            ),
            Error::EnumValueOverflow(enum_name) => String::from_str(
                "Enums are encoded as a `u8`-based values; the provided enum ",
            ).concat(enum_name.as_str()).concat(
                " has underlying primitive type that does not fit into `u8` value",
            ),
            Error::EnumValueNotKnown(enum_name, value) => String::from_str(
                "An unsupported value ",
            ).concat(decimal(*value as u64).as_str()).concat(" for enum ").concat(
                enum_name.as_str(),
            ).concat(" encountered during decode operation"),
            Error::ValueOutOfRange(data_type, low, high, value) => String::from_str(
                "Decoding resulted in value ",
            ).concat(decimal(*value).as_str()).concat(" for type ").concat(
                data_type.as_str(),
            ).concat(" that exceeds the supported range ").concat(decimal(*low).as_str()).concat(
                "..",
            ).concat(decimal(*high).as_str()),
            Error::DataNotEntirelyConsumed => String::from_str(
                "Data were not consumed entirely during strict decoding procedure",
            ),
            Error::DataIntegrityError(text) => String::from_str("Data integrity error: ").concat(
                text.as_str(),
            ),
        }
    }
}

/// A value for which decoding undoes encoding.
pub trait StrictRoundTrip: StrictEncode + StrictDecode {
    /// Decoding the encoding of a value gives the value back and takes
    /// exactly its encoding, whatever follows it.
    proof fn round_trip(value: &Self, rest: Seq<u8>)
        ensures
            Self::encoding(value.deep_view()) matches Ok(code) ==> Self::decoding(code + rest)
                == Ok::<(Self::V, nat), ErrorView>((value.deep_view(), code.len())),
    ;
}

/// The round trip of a consensus-encoded value is that of its consensus
/// encoding.
impl<T: WithBitcoinEncoding> StrictRoundTrip for T {
    proof fn round_trip(value: &Self, rest: Seq<u8>) {
        T::consensus_round_trip(value, rest);
    }
}

/// A count that can be encoded comes back.
impl StrictRoundTrip for usize {
    proof fn round_trip(value: &Self, rest: Seq<u8>) {
        if *value <= MAX_ITEMS {
            lemma_pow256_small(2);
            lemma_le_round_trip(*value as nat, 2, rest);
            lemma_le_bytes_len(*value as nat, 2);
        }
    }
}

/// An optional value comes back where the value in it does.
impl<T: StrictRoundTrip> StrictRoundTrip for Option<T> {
    proof fn round_trip(value: &Self, rest: Seq<u8>) {
        match value {
            None => {
                assert((seq![0u8] + rest)[0] == 0);
            },
            Some(inner) => {
                if T::encoding(inner.deep_view()) is Ok {
                    let bytes = T::encoding(inner.deep_view())->Ok_0;
                    let code = seq![1u8] + bytes;
                    T::round_trip(inner, rest);
                    assert((code + rest)[0] == 1);
                    assert((code + rest).skip(1) =~= bytes + rest);
                }
            },
        }
    }
}

/// The models of a row of values.
pub open spec fn models<T: DeepView>(values: Seq<T>) -> Seq<T::V> {
    Seq::new(values.len(), |i: int| values[i].deep_view())
}

/// Decoding as many items as were encoded gives the items back and takes
/// exactly their encodings, whatever follows them.
pub proof fn lemma_items_round_trip<T: StrictRoundTrip>(values: Seq<T>, rest: Seq<u8>)
    ensures
        items_encoding::<T>(models(values)) matches Ok(code) ==> items_decoding::<T>(
            code + rest,
            values.len(),
        ) == Ok::<(Seq<T::V>, nat), ErrorView>((models(values), code.len())),
    decreases values.len(),
{
    let all = models(values);
    if values.len() > 0 && items_encoding::<T>(all) is Ok {
        let front_values = values.drop_last();
        let front = models(front_values);
        assert(all.drop_last() =~= front);
        assert(all.last() == values.last().deep_view());
        let front_code = items_encoding::<T>(front)->Ok_0;
        let last_code = T::encoding(all.last())->Ok_0;
        let code = front_code + last_code;
        lemma_items_round_trip::<T>(front_values, last_code + rest);
        T::round_trip(&values.last(), rest);
        assert(front_code + (last_code + rest) =~= code + rest);
        assert((code + rest).skip(front_code.len() as int) =~= last_code + rest);
        assert(front.push(all.last()) =~= all);
        assert(items_decoding::<T>(code + rest, (values.len() - 1) as nat) == Ok::<
            (Seq<T::V>, nat),
            ErrorView,
        >((front, front_code.len())));
    } else if values.len() == 0 {
        assert(all =~= Seq::<T::V>::empty());
    }
}

/// Decoding an encoded list gives the list back and takes exactly its
/// encoding, whatever follows it.
pub proof fn lemma_list_round_trip<T: StrictRoundTrip>(values: Seq<T>, rest: Seq<u8>)
    ensures
        <Vec<T>>::encoding(models(values)) matches Ok(code) ==> <Vec<T>>::decoding(code + rest)
            == Ok::<(Seq<T::V>, nat), ErrorView>((models(values), code.len())),
{
    let all = models(values);
    if <Vec<T>>::encoding(all) is Ok {
        let items = items_encoding::<T>(all)->Ok_0;
        let head = le_bytes(all.len(), 2);
        let code = head + items;
        lemma_pow256_small(2);
        lemma_le_bytes_len(all.len(), 2);
        lemma_le_round_trip(all.len(), 2, items + rest);
        lemma_items_round_trip::<T>(values, rest);
        assert(head + (items + rest) =~= code + rest);
        assert((code + rest).skip(2) =~= items + rest);
    }
}

/// A vector comes back where its items do.
impl<T: StrictRoundTrip> StrictRoundTrip for Vec<T> {
    proof fn round_trip(value: &Self, rest: Seq<u8>) {
        assert(value.deep_view() =~= models(value@));
        lemma_list_round_trip::<T>(value@, rest);
    }
}

/// A boxed byte string comes back.
impl StrictRoundTrip for Box<[u8]> {
    proof fn round_trip(value: &Self, rest: Seq<u8>) {
        assert(value.deep_view() =~= value@);
        if value@.len() <= MAX_ITEMS {
            lemma_bytes_round_trip(value@, rest);
        }
    }
}

/// A string comes back: its UTF-8 form is valid and spells it.
impl StrictRoundTrip for String {
    proof fn round_trip(value: &Self, rest: Seq<u8>) {
        let bytes = vstd::utf8::encode_utf8(value@);
        if bytes.len() <= MAX_ITEMS {
            lemma_bytes_round_trip(bytes, rest);
            vstd::utf8::encode_utf8_valid_utf8(value@);
            vstd::utf8::encode_utf8_decode_utf8(value@);
        }
    }
}

/// The encoding of `first` followed by that of `second`; the first of the
/// two that has none gives its error to the whole.
pub open spec fn and_then(first: Encoding, second: Encoding) -> Encoding {
    match first {
        Err(error) => Err(error),
        Ok(front) => match second {
            Err(error) => Err(error),
            Ok(back) => Ok(front + back),
        },
    }
}

/// The decoding that continues `first` with `second`, which is told how
/// many bytes `first` took: both values and the bytes they take together,
/// or the error of the first of the two that fails.
pub open spec fn and_next<A, B>(first: Decoding<A>, second: spec_fn(nat) -> Decoding<B>)
    -> Decoding<(A, B)> {
    match first {
        Err(error) => Err(error),
        Ok((front, used)) => match second(used) {
            Err(error) => Err(error),
            Ok((back, more)) => Ok(((front, back), used + more)),
        },
    }
}

/// The decoding of a `T` that stands in `data` after the given number of
/// bytes.
pub open spec fn next_decoding<T: StrictDecode>(data: Seq<u8>) -> spec_fn(nat) -> Decoding<T::V> {
    |used: nat| T::decoding(data.skip(used as int))
}

/// Appends the encoding of a further field to `e`: `value` is encoded
/// after `count` bytes of earlier fields, whose encodings together were
/// `done` and were appended to `before`.
pub fn encode_field<T: StrictEncode>(
    value: &T,
    e: &mut Vec<u8>,
    count: usize,
    Ghost(before): Ghost<Seq<u8>>,
    Ghost(done): Ghost<Seq<u8>>,
) -> (written: Result<usize, Error>)
    requires
        old(e)@ == before + done,
        count == done.len(),
    ensures
        encoded(before, final(e)@, written, and_then(Ok(done), T::encoding(value.deep_view()))),
{
    match value.strict_encode(e) {
        Ok(more) => {
            let total = e.len();
            proof {
                let bytes = T::encoding(value.deep_view())->Ok_0;
                assert(e@ =~= before + (done + bytes));
            }
            Ok(count + more)
        },
        Err(error) => {
            proof {
                assert(before.is_prefix_of(before + done));
            }
            Err(error)
        },
    }
}

/// Reads a further field: the value that stands `used` bytes after the
/// place where `start` stood.
pub fn decode_field<T: StrictDecode>(
    d: &mut Reader,
    Ghost(start): Ghost<Reader>,
    Ghost(used): Ghost<nat>,
) -> (read: Result<T, Error>)
    requires
        old(d).data() == start.data(),
        old(d).consumed() == start.consumed() + used,
    ensures
        match read {
            Ok(value) => next_decoding::<T>(start.remaining())(used) matches Ok((model, count))
                && model == value.deep_view() && final(d).advanced(&start, used + count),
            Err(error) => next_decoding::<T>(start.remaining())(used) == Err::<
                (T::V, nat),
                ErrorView,
            >(error@) && final(d).same_data(&start),
        },
{
    let _position = d.position();
    proof {
        assert(d.remaining() =~= start.remaining().skip(used as int));
    }
    T::strict_decode(d)
}

/// Two encodings that make one are both there, and the one is the first
/// followed by the second.
pub proof fn lemma_and_then_ok(first: Encoding, second: Encoding)
    requires
        and_then(first, second) is Ok,
    ensures
        first is Ok,
        second is Ok,
        and_then(first, second) == Ok::<Seq<u8>, ErrorView>(first->Ok_0 + second->Ok_0),
{
}

/// The field whose encoding stands in `data` after the fields decoded so
/// far decodes there, provided that it decodes from its encoding, and what
/// follows it in `data` is what follows its encoding.
pub proof fn lemma_next_round_trip<A, T: StrictEncode + StrictDecode>(
    value: &T,
    data: Seq<u8>,
    so_far: Decoding<A>,
    tail: Seq<u8>,
)
    requires
        so_far is Ok,
        so_far->Ok_0.1 <= data.len(),
        T::encoding(value.deep_view()) matches Ok(code) && data.skip(so_far->Ok_0.1 as int) == code
            + tail && T::decoding(code + tail) == Ok::<(T::V, nat), ErrorView>(
            (value.deep_view(), code.len()),
        ),
    ensures
        and_next(so_far, next_decoding::<T>(data)) == Ok::<((A, T::V), nat), ErrorView>(
            (
                (so_far->Ok_0.0, value.deep_view()),
                so_far->Ok_0.1 + T::encoding(value.deep_view())->Ok_0.len(),
            ),
        ),
        data.skip((so_far->Ok_0.1 + T::encoding(value.deep_view())->Ok_0.len()) as int) == tail,
        so_far->Ok_0.1 + T::encoding(value.deep_view())->Ok_0.len() <= data.len(),
{
    let used = so_far->Ok_0.1;
    let code = T::encoding(value.deep_view())->Ok_0;
    assert(data.skip(used as int).len() == code.len() + tail.len());
    assert(data.skip((used + code.len()) as int) =~= (code + tail).skip(code.len() as int));
    assert((code + tail).skip(code.len() as int) =~= tail);
}

/// Byte strings are joined the same way whichever two are joined first.
pub proof fn lemma_concat_assoc(a: Seq<u8>, b: Seq<u8>, c: Seq<u8>)
    ensures
        (a + b) + c == a + (b + c),
{
    assert((a + b) + c =~= a + (b + c));
}

} // verus!
