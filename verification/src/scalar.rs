use vstd::prelude::*;

verus! {

/// The two bytes of `v`, low byte first.
pub open spec fn spec_u16_le(v: u16) -> Seq<u8> {
    seq![(v % 256) as u8, (v / 256) as u8]
}

/// The four bytes of `v`, low byte first.
pub open spec fn spec_u32_le(v: u32) -> Seq<u8> {
    seq![
        (v % 256) as u8,
        ((v / 0x100) % 256) as u8,
        ((v / 0x1_0000) % 256) as u8,
        (v / 0x100_0000) as u8,
    ]
}

/// The eight bytes of `v`, low byte first.
pub open spec fn spec_u64_le(v: u64) -> Seq<u8> {
    spec_u32_le((v % 0x1_0000_0000) as u32) + spec_u32_le((v / 0x1_0000_0000) as u32)
}

/// The number that the first two bytes of `bytes` spell, low byte first.
pub open spec fn spec_u16_from_le(bytes: Seq<u8>) -> u16
    recommends
        bytes.len() >= 2,
{
    (bytes[0] + bytes[1] * 0x100) as u16
}

/// The number that the first four bytes of `bytes` spell, low byte first.
pub open spec fn spec_u32_from_le(bytes: Seq<u8>) -> u32
    recommends
        bytes.len() >= 4,
{
    (bytes[0] + bytes[1] * 0x100 + bytes[2] * 0x1_0000 + bytes[3] * 0x100_0000) as u32
}

/// The number that the first eight bytes of `bytes` spell, low byte first.
pub open spec fn spec_u64_from_le(bytes: Seq<u8>) -> u64
    recommends
        bytes.len() >= 8,
{
    (spec_u32_from_le(bytes) + spec_u32_from_le(bytes.subrange(4, 8)) * 0x1_0000_0000) as u64
}

/// The two's complement bit pattern of a signed byte.
pub open spec fn spec_i8_bits(x: i8) -> u8 {
    if x >= 0 {
        x as u8
    } else {
        (x + 0x100) as u8
    }
}

/// The signed byte that has the bit pattern `u`.
pub open spec fn spec_i8_of_bits(u: u8) -> i8 {
    if u < 0x80 {
        u as i8
    } else {
        (u - 0x100) as i8
    }
}

/// The two's complement bit pattern of a signed 16-bit number.
pub open spec fn spec_i16_bits(x: i16) -> u16 {
    if x >= 0 {
        x as u16
    } else {
        (x + 0x1_0000) as u16
    }
}

/// The signed 16-bit number that has the bit pattern `u`.
pub open spec fn spec_i16_of_bits(u: u16) -> i16 {
    if u < 0x8000 {
        u as i16
    } else {
        (u - 0x1_0000) as i16
    }
}

/// The two's complement bit pattern of a signed 32-bit number.
pub open spec fn spec_i32_bits(x: i32) -> u32 {
    if x >= 0 {
        x as u32
    } else {
        (x + 0x1_0000_0000) as u32
    }
}

/// The signed 32-bit number that has the bit pattern `u`.
pub open spec fn spec_i32_of_bits(u: u32) -> i32 {
    if u < 0x8000_0000 {
        u as i32
    } else {
        (u - 0x1_0000_0000) as i32
    }
}

/// The two's complement bit pattern of a signed 64-bit number.
pub open spec fn spec_i64_bits(x: i64) -> u64 {
    if x >= 0 {
        x as u64
    } else {
        (x + 0x1_0000_0000_0000_0000) as u64
    }
}

/// The signed 64-bit number that has the bit pattern `u`.
pub open spec fn spec_i64_of_bits(u: u64) -> i64 {
    if u < 0x8000_0000_0000_0000 {
        u as i64
    } else {
        (u - 0x1_0000_0000_0000_0000) as i64
    }
}

/// Decoding the bytes of a 32-bit number gives the number back, whatever follows them.
pub proof fn lemma_u32_le_round_trip(v: u32, rest: Seq<u8>)
    ensures
        spec_u32_le(v).len() == 4,
        spec_u32_from_le(spec_u32_le(v) + rest) == v,
{
}

/// Decoding the bytes of a 16-bit number gives the number back, whatever follows them.
pub proof fn lemma_u16_le_round_trip(v: u16, rest: Seq<u8>)
    ensures
        spec_u16_le(v).len() == 2,
        spec_u16_from_le(spec_u16_le(v) + rest) == v,
{
}

/// Decoding the bytes of a 64-bit number gives the number back, whatever follows them.
pub proof fn lemma_u64_le_round_trip(v: u64, rest: Seq<u8>)
    ensures
        spec_u64_le(v).len() == 8,
        spec_u64_from_le(spec_u64_le(v) + rest) == v,
{
    let lo = (v % 0x1_0000_0000) as u32;
    let hi = (v / 0x1_0000_0000) as u32;
    let all = spec_u64_le(v) + rest;
    lemma_u32_le_round_trip(lo, spec_u32_le(hi) + rest);
    lemma_u32_le_round_trip(hi, Seq::empty());
    assert(all =~= spec_u32_le(lo) + (spec_u32_le(hi) + rest));
    assert(all.subrange(4, 8) =~= spec_u32_le(hi) + Seq::<u8>::empty());
}

/// Encodes a 16-bit number, low byte first.
pub fn u16_to_le(v: u16) -> (bytes: Vec<u8>)
    ensures
        bytes@ == spec_u16_le(v),
{
    let mut bytes: Vec<u8> = Vec::with_capacity(2);
    bytes.push((v % 256) as u8);
    bytes.push((v / 256) as u8);
    assert(bytes@ =~= spec_u16_le(v));
    bytes
}

/// Encodes a 32-bit number, low byte first.
pub fn u32_to_le(v: u32) -> (bytes: Vec<u8>)
    ensures
        bytes@ == spec_u32_le(v),
{
    let mut bytes: Vec<u8> = Vec::with_capacity(4);
    bytes.push((v % 256) as u8);
    bytes.push(((v / 0x100) % 256) as u8);
    bytes.push(((v / 0x1_0000) % 256) as u8);
    bytes.push((v / 0x100_0000) as u8);
    assert(bytes@ =~= spec_u32_le(v));
    bytes
}

/// Encodes a 64-bit number, low byte first.
pub fn u64_to_le(v: u64) -> (bytes: Vec<u8>)
    ensures
        bytes@ == spec_u64_le(v),
{
    let mut bytes = u32_to_le((v % 0x1_0000_0000) as u32);
    let mut high = u32_to_le((v / 0x1_0000_0000) as u32);
    bytes.append(&mut high);
    bytes
}

/// Decodes the 16-bit number at the start of `bytes`.
pub fn u16_from_le(bytes: &[u8]) -> (v: u16)
    requires
        bytes@.len() >= 2,
    ensures
        v == spec_u16_from_le(bytes@),
{
    (bytes[0] as u16) + (bytes[1] as u16) * 0x100
}

/// Decodes the 32-bit number at the start of `bytes`.
pub fn u32_from_le(bytes: &[u8]) -> (v: u32)
    requires
        bytes@.len() >= 4,
    ensures
        v == spec_u32_from_le(bytes@),
{
    (bytes[0] as u32) + (bytes[1] as u32) * 0x100 + (bytes[2] as u32) * 0x1_0000 + (
    bytes[3] as u32) * 0x100_0000
}

/// Decodes the 64-bit number at the start of `bytes`.
pub fn u64_from_le(bytes: &[u8]) -> (v: u64)
    requires
        bytes@.len() >= 8,
    ensures
        v == spec_u64_from_le(bytes@),
{
    let low: u64 = (bytes[0] as u64) + (bytes[1] as u64) * 0x100 + (bytes[2] as u64) * 0x1_0000
        + (bytes[3] as u64) * 0x100_0000;
    let high: u64 = (bytes[4] as u64) + (bytes[5] as u64) * 0x100 + (bytes[6] as u64) * 0x1_0000
        + (bytes[7] as u64) * 0x100_0000;
    low + high * 0x1_0000_0000
}

/// A value of fixed width with a little-endian encoding.
pub trait Scalar: Sized {
    /// The number of bytes of the encoding.
    spec fn spec_size() -> nat;

    /// The encoding of the value, low byte first.
    spec fn spec_as_bytes(&self) -> Seq<u8>;

    /// The value that the first `spec_size()` bytes of `bytes` encode.
    spec fn spec_from_bytes(bytes: Seq<u8>) -> Self;

    /// Reading the encoding of a value gives the value back, whatever bytes follow it.
    proof fn lemma_round_trip(self, rest: Seq<u8>)
        ensures
            self.spec_as_bytes().len() == Self::spec_size(),
            Self::spec_from_bytes(self.spec_as_bytes() + rest) == self,
    ;

    /// The value as it is handed to the encoder. The encoder works by arithmetic on the
    /// value and not by its layout in memory, so this is the value itself on every host.
    fn to_le(self) -> (r: Self)
        ensures
            r == self,
    ;

    /// The inverse of `to_le`.
    fn from_le(x: Self) -> (r: Self)
        ensures
            r == x,
    ;

    /// The little-endian bytes of the value.
    fn as_bytes(&self) -> (bytes: Vec<u8>)
        ensures
            bytes@ == self.spec_as_bytes(),
            bytes@.len() == Self::spec_size(),
    ;

    /// Reads a value from the start of a window of bytes.
    fn from_bytes(bytes: &[u8]) -> (r: Self)
        requires
            bytes@.len() >= Self::spec_size(),
        ensures
            r == Self::spec_from_bytes(bytes@),
    ;
}

impl Scalar for bool {
    open spec fn spec_size() -> nat {
        1
    }

    open spec fn spec_as_bytes(&self) -> Seq<u8> {
        if *self {
            seq![1u8]
        } else {
            seq![0u8]
        }
    }

    open spec fn spec_from_bytes(bytes: Seq<u8>) -> Self {
        bytes[0] != 0
    }

    proof fn lemma_round_trip(self, rest: Seq<u8>) {
    }

    fn to_le(self) -> (r: Self) {
        self
    }

    fn from_le(x: Self) -> (r: Self) {
        x
    }

    fn as_bytes(&self) -> (bytes: Vec<u8>) {
        let mut bytes: Vec<u8> = Vec::with_capacity(1);
        if *self {
            bytes.push(1);
        } else {
            bytes.push(0);
        }
        assert(bytes@ =~= self.spec_as_bytes());
        bytes
    }

    fn from_bytes(bytes: &[u8]) -> (r: Self) {
        bytes[0] != 0
    }
}

impl Scalar for u8 {
    open spec fn spec_size() -> nat {
        1
    }

    open spec fn spec_as_bytes(&self) -> Seq<u8> {
        seq![*self]
    }

    open spec fn spec_from_bytes(bytes: Seq<u8>) -> Self {
        bytes[0]
    }

    proof fn lemma_round_trip(self, rest: Seq<u8>) {
    }

    fn to_le(self) -> (r: Self) {
        self
    }

    fn from_le(x: Self) -> (r: Self) {
        x
    }

    fn as_bytes(&self) -> (bytes: Vec<u8>) {
        let mut bytes: Vec<u8> = Vec::with_capacity(1);
        bytes.push(*self);
        assert(bytes@ =~= self.spec_as_bytes());
        bytes
    }

    fn from_bytes(bytes: &[u8]) -> (r: Self) {
        bytes[0]
    }
}

impl Scalar for i8 {
    open spec fn spec_size() -> nat {
        1
    }

    open spec fn spec_as_bytes(&self) -> Seq<u8> {
        seq![spec_i8_bits(*self)]
    }

    open spec fn spec_from_bytes(bytes: Seq<u8>) -> Self {
        spec_i8_of_bits(bytes[0])
    }

    proof fn lemma_round_trip(self, rest: Seq<u8>) {
    }

    fn to_le(self) -> (r: Self) {
        self
    }

    fn from_le(x: Self) -> (r: Self) {
        x
    }

    fn as_bytes(&self) -> (bytes: Vec<u8>) {
        let mut bytes: Vec<u8> = Vec::with_capacity(1);
        bytes.push(i8_bits(*self));
        assert(bytes@ =~= self.spec_as_bytes());
        bytes
    }

    fn from_bytes(bytes: &[u8]) -> (r: Self) {
        i8_of_bits(bytes[0])
    }
}

impl Scalar for u16 {
    open spec fn spec_size() -> nat {
        2
    }

    open spec fn spec_as_bytes(&self) -> Seq<u8> {
        spec_u16_le(*self)
    }

    open spec fn spec_from_bytes(bytes: Seq<u8>) -> Self {
        spec_u16_from_le(bytes)
    }

    proof fn lemma_round_trip(self, rest: Seq<u8>) {
        lemma_u16_le_round_trip(self, rest);
    }

    fn to_le(self) -> (r: Self) {
        self
    }

    fn from_le(x: Self) -> (r: Self) {
        x
    }

    fn as_bytes(&self) -> (bytes: Vec<u8>) {
        u16_to_le(*self)
    }

    fn from_bytes(bytes: &[u8]) -> (r: Self) {
        u16_from_le(bytes)
    }
}

impl Scalar for i16 {
    open spec fn spec_size() -> nat {
        2
    }

    open spec fn spec_as_bytes(&self) -> Seq<u8> {
        spec_u16_le(spec_i16_bits(*self))
    }

    open spec fn spec_from_bytes(bytes: Seq<u8>) -> Self {
        spec_i16_of_bits(spec_u16_from_le(bytes))
    }

    proof fn lemma_round_trip(self, rest: Seq<u8>) {
        lemma_u16_le_round_trip(spec_i16_bits(self), rest);
    }

    fn to_le(self) -> (r: Self) {
        self
    }

    fn from_le(x: Self) -> (r: Self) {
        x
    }

    fn as_bytes(&self) -> (bytes: Vec<u8>) {
        u16_to_le(i16_bits(*self))
    }

    fn from_bytes(bytes: &[u8]) -> (r: Self) {
        i16_of_bits(u16_from_le(bytes))
    }
}

impl Scalar for u32 {
    open spec fn spec_size() -> nat {
        4
    }

    open spec fn spec_as_bytes(&self) -> Seq<u8> {
        spec_u32_le(*self)
    }

    open spec fn spec_from_bytes(bytes: Seq<u8>) -> Self {
        spec_u32_from_le(bytes)
    }

    proof fn lemma_round_trip(self, rest: Seq<u8>) {
        lemma_u32_le_round_trip(self, rest);
    }

    fn to_le(self) -> (r: Self) {
        self
    }

    fn from_le(x: Self) -> (r: Self) {
        x
    }

    fn as_bytes(&self) -> (bytes: Vec<u8>) {
        u32_to_le(*self)
    }

    fn from_bytes(bytes: &[u8]) -> (r: Self) {
        u32_from_le(bytes)
    }
}

impl Scalar for i32 {
    open spec fn spec_size() -> nat {
        4
    }

    open spec fn spec_as_bytes(&self) -> Seq<u8> {
        spec_u32_le(spec_i32_bits(*self))
    }

    open spec fn spec_from_bytes(bytes: Seq<u8>) -> Self {
        spec_i32_of_bits(spec_u32_from_le(bytes))
    }

    proof fn lemma_round_trip(self, rest: Seq<u8>) {
        lemma_u32_le_round_trip(spec_i32_bits(self), rest);
    }

    fn to_le(self) -> (r: Self) {
        self
    }

    fn from_le(x: Self) -> (r: Self) {
        x
    }

    fn as_bytes(&self) -> (bytes: Vec<u8>) {
        u32_to_le(i32_bits(*self))
    }

    fn from_bytes(bytes: &[u8]) -> (r: Self) {
        i32_of_bits(u32_from_le(bytes))
    }
}

impl Scalar for u64 {
    open spec fn spec_size() -> nat {
        8
    }

    open spec fn spec_as_bytes(&self) -> Seq<u8> {
        spec_u64_le(*self)
    }

    open spec fn spec_from_bytes(bytes: Seq<u8>) -> Self {
        spec_u64_from_le(bytes)
    }

    proof fn lemma_round_trip(self, rest: Seq<u8>) {
        lemma_u64_le_round_trip(self, rest);
    }

    fn to_le(self) -> (r: Self) {
        self
    }

    fn from_le(x: Self) -> (r: Self) {
        x
    }

    fn as_bytes(&self) -> (bytes: Vec<u8>) {
        u64_to_le(*self)
    }

    fn from_bytes(bytes: &[u8]) -> (r: Self) {
        u64_from_le(bytes)
    }
}

impl Scalar for i64 {
    open spec fn spec_size() -> nat {
        8
    }

    open spec fn spec_as_bytes(&self) -> Seq<u8> {
        spec_u64_le(spec_i64_bits(*self))
    }

    open spec fn spec_from_bytes(bytes: Seq<u8>) -> Self {
        spec_i64_of_bits(spec_u64_from_le(bytes))
    }

    proof fn lemma_round_trip(self, rest: Seq<u8>) {
        lemma_u64_le_round_trip(spec_i64_bits(self), rest);
    }

    fn to_le(self) -> (r: Self) {
        self
    }

    fn from_le(x: Self) -> (r: Self) {
        x
    }

    fn as_bytes(&self) -> (bytes: Vec<u8>) {
        u64_to_le(i64_bits(*self))
    }

    fn from_bytes(bytes: &[u8]) -> (r: Self) {
        i64_of_bits(u64_from_le(bytes))
    }
}

/// The bit pattern of a signed byte.
pub fn i8_bits(x: i8) -> (u: u8)
    ensures
        u == spec_i8_bits(x),
{
    if x >= 0 {
        x as u8
    } else {
        ((x + i8::MAX) + 1) as u8 + 0x80u8
    }
}

/// The signed byte with the given bit pattern.
pub fn i8_of_bits(u: u8) -> (x: i8)
    ensures
        x == spec_i8_of_bits(u),
{
    if u < 0x80 {
        u as i8
    } else {
        ((u - 0x80) as i8) + i8::MIN
    }
}

/// The bit pattern of a signed 16-bit number.
pub fn i16_bits(x: i16) -> (u: u16)
    ensures
        u == spec_i16_bits(x),
{
    if x >= 0 {
        x as u16
    } else {
        ((x + i16::MAX) + 1) as u16 + 0x8000u16
    }
}

/// The signed 16-bit number with the given bit pattern.
pub fn i16_of_bits(u: u16) -> (x: i16)
    ensures
        x == spec_i16_of_bits(u),
{
    if u < 0x8000 {
        u as i16
    } else {
        ((u - 0x8000) as i16) + i16::MIN
    }
}

/// The bit pattern of a signed 32-bit number.
pub fn i32_bits(x: i32) -> (u: u32)
    ensures
        u == spec_i32_bits(x),
{
    if x >= 0 {
        x as u32
    } else {
        ((x + i32::MAX) + 1) as u32 + 0x8000_0000u32
    }
}

/// The signed 32-bit number with the given bit pattern.
pub fn i32_of_bits(u: u32) -> (x: i32)
    ensures
        x == spec_i32_of_bits(u),
{
    if u < 0x8000_0000 {
        u as i32
    } else {
        ((u - 0x8000_0000) as i32) + i32::MIN
    }
}

/// The bit pattern of a signed 64-bit number.
pub fn i64_bits(x: i64) -> (u: u64)
    ensures
        u == spec_i64_bits(x),
{
    if x >= 0 {
        x as u64
    } else {
        ((x + i64::MAX) + 1) as u64 + 0x8000_0000_0000_0000u64
    }
}

/// The signed 64-bit number with the given bit pattern.
pub fn i64_of_bits(u: u64) -> (x: i64)
    ensures
        x == spec_i64_of_bits(u),
{
    if u < 0x8000_0000_0000_0000 {
        u as i64
    } else {
        ((u - 0x8000_0000_0000_0000) as i64) + i64::MIN
    }
}

} // verus!
