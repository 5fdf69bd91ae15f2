//! Requests and responses, byte by byte: little-endian fields without padding.

use vstd::prelude::*;

verus! {

/// The two bytes at an offset, as a number.
#[verifier::opaque]
pub open spec fn u16_at(bytes: Seq<u8>, offset: int) -> u16 {
    bytes[offset] as u16 | ((bytes[offset + 1] as u16) << 8)
}

/// The four bytes at an offset, as a number.
#[verifier::opaque]
pub open spec fn u32_at(bytes: Seq<u8>, offset: int) -> u32 {
    bytes[offset] as u32 | ((bytes[offset + 1] as u32) << 8) | ((bytes[offset + 2] as u32) << 16) | ((
    bytes[offset + 3] as u32) << 24)
}

/// The eight bytes at an offset, as a number.
#[verifier::opaque]
pub open spec fn u64_at(bytes: Seq<u8>, offset: int) -> u64 {
    bytes[offset] as u64 | ((bytes[offset + 1] as u64) << 8) | ((bytes[offset + 2] as u64) << 16) | ((
    bytes[offset + 3] as u64) << 24) | ((bytes[offset + 4] as u64) << 32) | ((bytes[offset
        + 5] as u64) << 40) | ((bytes[offset + 6] as u64) << 48) | ((bytes[offset + 7] as u64)
        << 56)
}

/// Bytes that differ at most between two offsets, and so do their numbers.
pub open spec fn kept(before: Seq<u8>, after: Seq<u8>, low: int, high: int) -> bool {
    &&& after.len() == before.len()
    &&& forall|i: int|
        0 <= i < before.len() && (i < low || high <= i) ==> #[trigger] after[i] == before[i]
    &&& forall|i: int|
        0 <= i <= before.len() - 2 && (i + 2 <= low || high <= i) ==> #[trigger] u16_at(after, i)
            == u16_at(before, i)
    &&& forall|i: int|
        0 <= i <= before.len() - 4 && (i + 4 <= low || high <= i) ==> #[trigger] u32_at(after, i)
            == u32_at(before, i)
    &&& forall|i: int|
        0 <= i <= before.len() - 8 && (i + 8 <= low || high <= i) ==> #[trigger] u64_at(after, i)
            == u64_at(before, i)
}

pub proof fn lemma_kept(before: Seq<u8>, after: Seq<u8>, low: int, high: int)
    requires
        after.len() == before.len(),
        forall|i: int|
            0 <= i < before.len() && (i < low || high <= i) ==> #[trigger] after[i] == before[i],
    ensures
        kept(before, after, low, high),
{
    reveal(u16_at);
    reveal(u32_at);
    reveal(u64_at);
}

proof fn lemma_u16(value: u16)
    by (bit_vector)
    ensures
        ((value & 0xff) as u8) as u16 | ((((value >> 8) & 0xff) as u8) as u16) << 8 == value,
        value & 0xff <= 0xff,
        (value >> 8) & 0xff <= 0xff,
{
}

proof fn lemma_u32(value: u32)
    by (bit_vector)
    ensures
        ((value & 0xff) as u8) as u32 | (((((value >> 8) & 0xff) as u8) as u32) << 8) | (((((value
            >> 16) & 0xff) as u8) as u32) << 16) | (((((value >> 24) & 0xff) as u8) as u32) << 24)
            == value,
{
}

proof fn lemma_u64(value: u64)
    by (bit_vector)
    ensures
        ((value & 0xff) as u8) as u64 | (((((value >> 8) & 0xff) as u8) as u64) << 8) | (((((value
            >> 16) & 0xff) as u8) as u64) << 16) | (((((value >> 24) & 0xff) as u8) as u64) << 24)
            | (((((value >> 32) & 0xff) as u8) as u64) << 32) | (((((value >> 40)
            & 0xff) as u8) as u64) << 40) | (((((value >> 48) & 0xff) as u8) as u64) << 48) | (((((
        value >> 56) & 0xff) as u8) as u64) << 56) == value,
{
}

pub fn load_u16(bytes: &[u8], offset: usize) -> (value: u16)
    requires
        offset + 2 <= bytes@.len(),
        offset + 2 <= usize::MAX,
    ensures
        value == u16_at(bytes@, offset as int),
{
    proof {
        reveal(u16_at);
    }
    bytes[offset] as u16 | ((bytes[offset + 1] as u16) << 8)
}

pub fn load_u32(bytes: &[u8], offset: usize) -> (value: u32)
    requires
        offset + 4 <= bytes@.len(),
        offset + 4 <= usize::MAX,
    ensures
        value == u32_at(bytes@, offset as int),
{
    proof {
        reveal(u32_at);
    }
    bytes[offset] as u32 | ((bytes[offset + 1] as u32) << 8) | ((bytes[offset + 2] as u32) << 16) | ((
    bytes[offset + 3] as u32) << 24)
}

pub fn load_u64(bytes: &[u8], offset: usize) -> (value: u64)
    requires
        offset + 8 <= bytes@.len(),
        offset + 8 <= usize::MAX,
    ensures
        value == u64_at(bytes@, offset as int),
{
    proof {
        reveal(u64_at);
    }
    bytes[offset] as u64 | ((bytes[offset + 1] as u64) << 8) | ((bytes[offset + 2] as u64) << 16) | ((
    bytes[offset + 3] as u64) << 24) | ((bytes[offset + 4] as u64) << 32) | ((bytes[offset
        + 5] as u64) << 40) | ((bytes[offset + 6] as u64) << 48) | ((bytes[offset + 7] as u64)
        << 56)
}

pub fn store_u8(bytes: &mut [u8], offset: usize, value: u8)
    requires
        offset < old(bytes)@.len(),
    ensures
        final(bytes)@[offset as int] == value,
        kept(old(bytes)@, final(bytes)@, offset as int, offset + 1),
{
    bytes[offset] = value;
    proof {
        lemma_kept(old(bytes)@, bytes@, offset as int, offset + 1);
    }
}

pub fn store_u16(bytes: &mut [u8], offset: usize, value: u16)
    requires
        offset + 2 <= old(bytes)@.len(),
        offset + 2 <= usize::MAX,
    ensures
        u16_at(final(bytes)@, offset as int) == value,
        kept(old(bytes)@, final(bytes)@, offset as int, offset + 2),
{
    proof {
        reveal(u16_at);
        lemma_u16(value);
    }
    bytes[offset] = (value & 0xff) as u8;
    bytes[offset + 1] = ((value >> 8) & 0xff) as u8;
    proof {
        lemma_kept(old(bytes)@, bytes@, offset as int, offset + 2);
    }
}

pub fn store_u32(bytes: &mut [u8], offset: usize, value: u32)
    requires
        offset + 4 <= old(bytes)@.len(),
        offset + 4 <= usize::MAX,
    ensures
        u32_at(final(bytes)@, offset as int) == value,
        kept(old(bytes)@, final(bytes)@, offset as int, offset + 4),
{
    proof {
        reveal(u32_at);
        lemma_u32(value);
    }
    bytes[offset] = (value & 0xff) as u8;
    bytes[offset + 1] = ((value >> 8) & 0xff) as u8;
    bytes[offset + 2] = ((value >> 16) & 0xff) as u8;
    bytes[offset + 3] = ((value >> 24) & 0xff) as u8;
    proof {
        lemma_kept(old(bytes)@, bytes@, offset as int, offset + 4);
    }
}

pub fn store_u64(bytes: &mut [u8], offset: usize, value: u64)
    requires
        offset + 8 <= old(bytes)@.len(),
        offset + 8 <= usize::MAX,
    ensures
        u64_at(final(bytes)@, offset as int) == value,
        kept(old(bytes)@, final(bytes)@, offset as int, offset + 8),
{
    proof {
        reveal(u64_at);
        lemma_u64(value);
    }
    bytes[offset] = (value & 0xff) as u8;
    bytes[offset + 1] = ((value >> 8) & 0xff) as u8;
    bytes[offset + 2] = ((value >> 16) & 0xff) as u8;
    bytes[offset + 3] = ((value >> 24) & 0xff) as u8;
    bytes[offset + 4] = ((value >> 32) & 0xff) as u8;
    bytes[offset + 5] = ((value >> 40) & 0xff) as u8;
    bytes[offset + 6] = ((value >> 48) & 0xff) as u8;
    bytes[offset + 7] = ((value >> 56) & 0xff) as u8;
    proof {
        lemma_kept(old(bytes)@, bytes@, offset as int, offset + 8);
    }
}

/// A value that has a fixed place for each of its fields.
pub trait Pod: Sized + Copy {
    /// How many bytes a value takes.
    spec fn spec_size() -> int;

    /// Whether the bytes at an offset hold a value. Every byte belongs to one
    /// field.
    spec fn laid_out(self, bytes: Seq<u8>, offset: int) -> bool;

    fn size() -> (size: usize)
        ensures
            size == Self::spec_size(),
            size <= 0x1000,
    ;

    fn load(bytes: &[u8], offset: usize) -> (value: Self)
        requires
            offset + Self::spec_size() <= bytes@.len(),
            offset + Self::spec_size() <= usize::MAX,
        ensures
            value.laid_out(bytes@, offset as int),
    ;

    fn store(&self, bytes: &mut [u8], offset: usize)
        requires
            offset + Self::spec_size() <= old(bytes)@.len(),
            offset + Self::spec_size() <= usize::MAX,
        ensures
            self.laid_out(final(bytes)@, offset as int),
            kept(old(bytes)@, final(bytes)@, offset as int, offset + Self::spec_size()),
    ;

    /// The bytes at an offset hold one value.
    proof fn determined(self, other: Self, bytes: Seq<u8>, offset: int)
        requires
            self.laid_out(bytes, offset),
            other.laid_out(bytes, offset),
        ensures
            self == other,
    ;
}

/// What was stored is what is loaded from there.
pub proof fn law_stored_value_is_loaded<T: Pod>(
    stored: T,
    loaded: T,
    bytes: Seq<u8>,
    offset: int,
)
    requires
        stored.laid_out(bytes, offset),
        loaded.laid_out(bytes, offset),
    ensures
        loaded == stored,
{
    stored.determined(loaded, bytes, offset);
}

/// The value that the bytes at an offset hold.
pub open spec fn loaded<T: Pod>(bytes: Seq<u8>, offset: int) -> T {
    choose|value: T| #[trigger] value.laid_out(bytes, offset)
}

/// The bytes at an offset hold the value that is loaded from there.
pub proof fn lemma_loaded<T: Pod>(value: T, bytes: Seq<u8>, offset: int)
    requires
        value.laid_out(bytes, offset),
    ensures
        loaded::<T>(bytes, offset) == value,
{
    value.determined(loaded::<T>(bytes, offset), bytes, offset);
}

/// What every request begins with.
#[derive(Clone, Copy, Debug, Default, PartialEq, Eq, Structural)]
pub struct RequestHeader {
    pub abi_version: u16,
    pub struct_size: u16,
    pub flags: u32,
    pub request_id: u64,
    pub session_nonce: u64,
}

impl Pod for RequestHeader {
    open spec fn spec_size() -> int {
        24
    }

    open spec fn laid_out(self, bytes: Seq<u8>, offset: int) -> bool {
        &&& self.abi_version == u16_at(bytes, offset)
        &&& self.struct_size == u16_at(bytes, offset + 2)
        &&& self.flags == u32_at(bytes, offset + 4)
        &&& self.request_id == u64_at(bytes, offset + 8)
        &&& self.session_nonce == u64_at(bytes, offset + 16)
    }

    proof fn determined(self, other: Self, bytes: Seq<u8>, offset: int) {
    }

    fn size() -> (size: usize) {
        24
    }

    fn load(bytes: &[u8], offset: usize) -> (value: Self) {
        RequestHeader {
            abi_version: load_u16(bytes, offset),
            struct_size: load_u16(bytes, offset + 2),
            flags: load_u32(bytes, offset + 4),
            request_id: load_u64(bytes, offset + 8),
            session_nonce: load_u64(bytes, offset + 16),
        }
    }

    fn store(&self, bytes: &mut [u8], offset: usize) {
        store_u16(bytes, offset, self.abi_version);
        store_u16(bytes, offset + 2, self.struct_size);
        store_u32(bytes, offset + 4, self.flags);
        store_u64(bytes, offset + 8, self.request_id);
        store_u64(bytes, offset + 16, self.session_nonce);
    }
}

/// A failure, or zeros where there is none.
#[derive(Clone, Copy, Debug, Default, PartialEq, Eq, Structural)]
pub struct MonadErrorWire {
    pub phase: u32,
    pub code: u32,
    pub cpu_dense_index: u16,
    pub reserved: u16,
    pub operation_index: u32,
    pub detail: u64,
}

impl Pod for MonadErrorWire {
    open spec fn spec_size() -> int {
        24
    }

    open spec fn laid_out(self, bytes: Seq<u8>, offset: int) -> bool {
        &&& self.phase == u32_at(bytes, offset)
        &&& self.code == u32_at(bytes, offset + 4)
        &&& self.cpu_dense_index == u16_at(bytes, offset + 8)
        &&& self.reserved == u16_at(bytes, offset + 10)
        &&& self.operation_index == u32_at(bytes, offset + 12)
        &&& self.detail == u64_at(bytes, offset + 16)
    }

    proof fn determined(self, other: Self, bytes: Seq<u8>, offset: int) {
    }

    fn size() -> (size: usize) {
        24
    }

    fn load(bytes: &[u8], offset: usize) -> (value: Self) {
        MonadErrorWire {
            phase: load_u32(bytes, offset),
            code: load_u32(bytes, offset + 4),
            cpu_dense_index: load_u16(bytes, offset + 8),
            reserved: load_u16(bytes, offset + 10),
            operation_index: load_u32(bytes, offset + 12),
            detail: load_u64(bytes, offset + 16),
        }
    }

    fn store(&self, bytes: &mut [u8], offset: usize) {
        store_u32(bytes, offset, self.phase);
        store_u32(bytes, offset + 4, self.code);
        store_u16(bytes, offset + 8, self.cpu_dense_index);
        store_u16(bytes, offset + 10, self.reserved);
        store_u32(bytes, offset + 12, self.operation_index);
        store_u64(bytes, offset + 16, self.detail);
    }
}

/// What every response begins with.
#[derive(Clone, Copy, Debug, Default, PartialEq, Eq, Structural)]
pub struct ResponseHeader {
    pub abi_version: u16,
    pub struct_size: u16,
    pub flags: u32,
    pub request_id: u64,
    pub session_nonce: u64,
    pub error: MonadErrorWire,
}

impl Pod for ResponseHeader {
    open spec fn spec_size() -> int {
        48
    }

    open spec fn laid_out(self, bytes: Seq<u8>, offset: int) -> bool {
        &&& self.abi_version == u16_at(bytes, offset)
        &&& self.struct_size == u16_at(bytes, offset + 2)
        &&& self.flags == u32_at(bytes, offset + 4)
        &&& self.request_id == u64_at(bytes, offset + 8)
        &&& self.session_nonce == u64_at(bytes, offset + 16)
        &&& self.error.laid_out(bytes, offset + 24)
    }

    proof fn determined(self, other: Self, bytes: Seq<u8>, offset: int) {
        self.error.determined(other.error, bytes, offset + 24);
    }

    fn size() -> (size: usize) {
        48
    }

    fn load(bytes: &[u8], offset: usize) -> (value: Self) {
        ResponseHeader {
            abi_version: load_u16(bytes, offset),
            struct_size: load_u16(bytes, offset + 2),
            flags: load_u32(bytes, offset + 4),
            request_id: load_u64(bytes, offset + 8),
            session_nonce: load_u64(bytes, offset + 16),
            error: MonadErrorWire::load(bytes, offset + 24),
        }
    }

    fn store(&self, bytes: &mut [u8], offset: usize) {
        store_u16(bytes, offset, self.abi_version);
        store_u16(bytes, offset + 2, self.struct_size);
        store_u32(bytes, offset + 4, self.flags);
        store_u64(bytes, offset + 8, self.request_id);
        store_u64(bytes, offset + 16, self.session_nonce);
        self.error.store(bytes, offset + 24);
    }
}

/// Names a view.
#[derive(Clone, Copy, Debug, Default, PartialEq, Eq, Structural)]
pub struct ViewIdWire {
    pub slot: u16,
    pub reserved: u16,
    pub reserved1: u32,
    pub generation: u64,
}

impl Pod for ViewIdWire {
    open spec fn spec_size() -> int {
        16
    }

    open spec fn laid_out(self, bytes: Seq<u8>, offset: int) -> bool {
        &&& self.slot == u16_at(bytes, offset)
        &&& self.reserved == u16_at(bytes, offset + 2)
        &&& self.reserved1 == u32_at(bytes, offset + 4)
        &&& self.generation == u64_at(bytes, offset + 8)
    }

    proof fn determined(self, other: Self, bytes: Seq<u8>, offset: int) {
    }

    fn size() -> (size: usize) {
        16
    }

    fn load(bytes: &[u8], offset: usize) -> (value: Self) {
        ViewIdWire {
            slot: load_u16(bytes, offset),
            reserved: load_u16(bytes, offset + 2),
            reserved1: load_u32(bytes, offset + 4),
            generation: load_u64(bytes, offset + 8),
        }
    }

    fn store(&self, bytes: &mut [u8], offset: usize) {
        store_u16(bytes, offset, self.slot);
        store_u16(bytes, offset + 2, self.reserved);
        store_u32(bytes, offset + 4, self.reserved1);
        store_u64(bytes, offset + 8, self.generation);
    }
}

/// Names a draft.
#[derive(Clone, Copy, Debug, Default, PartialEq, Eq, Structural)]
pub struct DraftIdWire {
    pub slot: u16,
    pub reserved: u16,
    pub reserved1: u32,
    pub generation: u64,
    pub session_nonce: u64,
}

impl Pod for DraftIdWire {
    open spec fn spec_size() -> int {
        24
    }

    open spec fn laid_out(self, bytes: Seq<u8>, offset: int) -> bool {
        &&& self.slot == u16_at(bytes, offset)
        &&& self.reserved == u16_at(bytes, offset + 2)
        &&& self.reserved1 == u32_at(bytes, offset + 4)
        &&& self.generation == u64_at(bytes, offset + 8)
        &&& self.session_nonce == u64_at(bytes, offset + 16)
    }

    proof fn determined(self, other: Self, bytes: Seq<u8>, offset: int) {
    }

    fn size() -> (size: usize) {
        24
    }

    fn load(bytes: &[u8], offset: usize) -> (value: Self) {
        DraftIdWire {
            slot: load_u16(bytes, offset),
            reserved: load_u16(bytes, offset + 2),
            reserved1: load_u32(bytes, offset + 4),
            generation: load_u64(bytes, offset + 8),
            session_nonce: load_u64(bytes, offset + 16),
        }
    }

    fn store(&self, bytes: &mut [u8], offset: usize) {
        store_u16(bytes, offset, self.slot);
        store_u16(bytes, offset + 2, self.reserved);
        store_u32(bytes, offset + 4, self.reserved1);
        store_u64(bytes, offset + 8, self.generation);
        store_u64(bytes, offset + 16, self.session_nonce);
    }
}

/// Names backing memory.
#[derive(Clone, Copy, Debug, Default, PartialEq, Eq, Structural)]
pub struct BackingIdWire {
    pub slot: u32,
    pub reserved: u32,
    pub generation: u64,
    pub session_nonce: u64,
}

impl Pod for BackingIdWire {
    open spec fn spec_size() -> int {
        24
    }

    open spec fn laid_out(self, bytes: Seq<u8>, offset: int) -> bool {
        &&& self.slot == u32_at(bytes, offset)
        &&& self.reserved == u32_at(bytes, offset + 4)
        &&& self.generation == u64_at(bytes, offset + 8)
        &&& self.session_nonce == u64_at(bytes, offset + 16)
    }

    proof fn determined(self, other: Self, bytes: Seq<u8>, offset: int) {
    }

    fn size() -> (size: usize) {
        24
    }

    fn load(bytes: &[u8], offset: usize) -> (value: Self) {
        BackingIdWire {
            slot: load_u32(bytes, offset),
            reserved: load_u32(bytes, offset + 4),
            generation: load_u64(bytes, offset + 8),
            session_nonce: load_u64(bytes, offset + 16),
        }
    }

    fn store(&self, bytes: &mut [u8], offset: usize) {
        store_u32(bytes, offset, self.slot);
        store_u32(bytes, offset + 4, self.reserved);
        store_u64(bytes, offset + 8, self.generation);
        store_u64(bytes, offset + 16, self.session_nonce);
    }
}

/// Processors of one group.
#[derive(Clone, Copy, Debug, Default, PartialEq, Eq, Structural)]
pub struct CpuSetWordWire {
    pub group: u16,
    pub reserved: u16,
    pub reserved1: u32,
    pub mask: u64,
}

impl Pod for CpuSetWordWire {
    open spec fn spec_size() -> int {
        16
    }

    open spec fn laid_out(self, bytes: Seq<u8>, offset: int) -> bool {
        &&& self.group == u16_at(bytes, offset)
        &&& self.reserved == u16_at(bytes, offset + 2)
        &&& self.reserved1 == u32_at(bytes, offset + 4)
        &&& self.mask == u64_at(bytes, offset + 8)
    }

    proof fn determined(self, other: Self, bytes: Seq<u8>, offset: int) {
    }

    fn size() -> (size: usize) {
        16
    }

    fn load(bytes: &[u8], offset: usize) -> (value: Self) {
        CpuSetWordWire {
            group: load_u16(bytes, offset),
            reserved: load_u16(bytes, offset + 2),
            reserved1: load_u32(bytes, offset + 4),
            mask: load_u64(bytes, offset + 8),
        }
    }

    fn store(&self, bytes: &mut [u8], offset: usize) {
        store_u16(bytes, offset, self.group);
        store_u16(bytes, offset + 2, self.reserved);
        store_u32(bytes, offset + 4, self.reserved1);
        store_u64(bytes, offset + 8, self.mask);
    }
}

/// Asks what the hypervisor can do.
#[derive(Clone, Copy, Debug, Default, PartialEq, Eq, Structural)]
pub struct GetCapsRequest {
    pub header: RequestHeader,
}

impl Pod for GetCapsRequest {
    open spec fn spec_size() -> int {
        24
    }

    open spec fn laid_out(self, bytes: Seq<u8>, offset: int) -> bool {
        &&& self.header.laid_out(bytes, offset)
    }

    proof fn determined(self, other: Self, bytes: Seq<u8>, offset: int) {
        self.header.determined(other.header, bytes, offset);
    }

    fn size() -> (size: usize) {
        24
    }

    fn load(bytes: &[u8], offset: usize) -> (value: Self) {
        GetCapsRequest {
            header: RequestHeader::load(bytes, offset),
        }
    }

    fn store(&self, bytes: &mut [u8], offset: usize) {
        self.header.store(bytes, offset);
    }
}

/// An answer without more.
#[derive(Clone, Copy, Debug, Default, PartialEq, Eq, Structural)]
pub struct EmptyResponse {
    pub header: ResponseHeader,
}

impl Pod for EmptyResponse {
    open spec fn spec_size() -> int {
        48
    }

    open spec fn laid_out(self, bytes: Seq<u8>, offset: int) -> bool {
        &&& self.header.laid_out(bytes, offset)
    }

    proof fn determined(self, other: Self, bytes: Seq<u8>, offset: int) {
        self.header.determined(other.header, bytes, offset);
    }

    fn size() -> (size: usize) {
        48
    }

    fn load(bytes: &[u8], offset: usize) -> (value: Self) {
        EmptyResponse {
            header: ResponseHeader::load(bytes, offset),
        }
    }

    fn store(&self, bytes: &mut [u8], offset: usize) {
        self.header.store(bytes, offset);
    }
}

/// Asks the hypervisor to stop.
#[derive(Clone, Copy, Debug, Default, PartialEq, Eq, Structural)]
pub struct StopVmmRequest {
    pub header: RequestHeader,
}

impl Pod for StopVmmRequest {
    open spec fn spec_size() -> int {
        24
    }

    open spec fn laid_out(self, bytes: Seq<u8>, offset: int) -> bool {
        &&& self.header.laid_out(bytes, offset)
    }

    proof fn determined(self, other: Self, bytes: Seq<u8>, offset: int) {
        self.header.determined(other.header, bytes, offset);
    }

    fn size() -> (size: usize) {
        24
    }

    fn load(bytes: &[u8], offset: usize) -> (value: Self) {
        StopVmmRequest {
            header: RequestHeader::load(bytes, offset),
        }
    }

    fn store(&self, bytes: &mut [u8], offset: usize) {
        self.header.store(bytes, offset);
    }
}

/// The answer to a stop.
#[derive(Clone, Copy, Debug, Default, PartialEq, Eq, Structural)]
pub struct StopVmmResponse {
    pub header: ResponseHeader,
}

impl Pod for StopVmmResponse {
    open spec fn spec_size() -> int {
        48
    }

    open spec fn laid_out(self, bytes: Seq<u8>, offset: int) -> bool {
        &&& self.header.laid_out(bytes, offset)
    }

    proof fn determined(self, other: Self, bytes: Seq<u8>, offset: int) {
        self.header.determined(other.header, bytes, offset);
    }

    fn size() -> (size: usize) {
        48
    }

    fn load(bytes: &[u8], offset: usize) -> (value: Self) {
        StopVmmResponse {
            header: ResponseHeader::load(bytes, offset),
        }
    }

    fn store(&self, bytes: &mut [u8], offset: usize) {
        self.header.store(bytes, offset);
    }
}

/// What the hypervisor can do.
#[derive(Clone, Copy, Debug, Default, PartialEq, Eq)]
pub struct GetCapsResponse {
    pub header: ResponseHeader,
    pub driver_version: u32,
    pub lifecycle: u32,
    pub capability_bits: u64,
    pub aperture_end: u64,
    pub physaddr_width: u8,
    pub vbs_or_hypervisor_present: u8,
    pub session_available: u8,
    pub reserved0: u8,
    pub cpu_count: u16,
    pub max_views: u16,
    pub max_drafts: u16,
    pub max_batch_edits: u16,
    pub reserved1: u16,
    pub reserved2: u16,
    pub max_backing_pages: u32,
    pub reserved3: u32,
    pub reserved: [u64; 2],
}

impl Pod for GetCapsResponse {
    open spec fn spec_size() -> int {
        112
    }

    open spec fn laid_out(self, bytes: Seq<u8>, offset: int) -> bool {
        &&& self.header.laid_out(bytes, offset)
        &&& self.driver_version == u32_at(bytes, offset + 48)
        &&& self.lifecycle == u32_at(bytes, offset + 52)
        &&& self.capability_bits == u64_at(bytes, offset + 56)
        &&& self.aperture_end == u64_at(bytes, offset + 64)
        &&& self.physaddr_width == bytes[offset + 72]
        &&& self.vbs_or_hypervisor_present == bytes[offset + 73]
        &&& self.session_available == bytes[offset + 74]
        &&& self.reserved0 == bytes[offset + 75]
        &&& self.cpu_count == u16_at(bytes, offset + 76)
        &&& self.max_views == u16_at(bytes, offset + 78)
        &&& self.max_drafts == u16_at(bytes, offset + 80)
        &&& self.max_batch_edits == u16_at(bytes, offset + 82)
        &&& self.reserved1 == u16_at(bytes, offset + 84)
        &&& self.reserved2 == u16_at(bytes, offset + 86)
        &&& self.max_backing_pages == u32_at(bytes, offset + 88)
        &&& self.reserved3 == u32_at(bytes, offset + 92)
        &&& self.reserved@[0] == u64_at(bytes, offset + 96)
        &&& self.reserved@[1] == u64_at(bytes, offset + 104)
    }

    proof fn determined(self, other: Self, bytes: Seq<u8>, offset: int) {
        self.header.determined(other.header, bytes, offset);
        assert(self.reserved =~= other.reserved);
    }

    fn size() -> (size: usize) {
        112
    }

    fn load(bytes: &[u8], offset: usize) -> (value: Self) {
        GetCapsResponse {
            header: ResponseHeader::load(bytes, offset),
            driver_version: load_u32(bytes, offset + 48),
            lifecycle: load_u32(bytes, offset + 52),
            capability_bits: load_u64(bytes, offset + 56),
            aperture_end: load_u64(bytes, offset + 64),
            physaddr_width: bytes[offset + 72],
            vbs_or_hypervisor_present: bytes[offset + 73],
            session_available: bytes[offset + 74],
            reserved0: bytes[offset + 75],
            cpu_count: load_u16(bytes, offset + 76),
            max_views: load_u16(bytes, offset + 78),
            max_drafts: load_u16(bytes, offset + 80),
            max_batch_edits: load_u16(bytes, offset + 82),
            reserved1: load_u16(bytes, offset + 84),
            reserved2: load_u16(bytes, offset + 86),
            max_backing_pages: load_u32(bytes, offset + 88),
            reserved3: load_u32(bytes, offset + 92),
            reserved: [
                load_u64(bytes, offset + 96),
                load_u64(bytes, offset + 104),
            ],
        }
    }

    fn store(&self, bytes: &mut [u8], offset: usize) {
        self.store_first(bytes, offset);
        self.store_rest(bytes, offset);
    }
}

impl GetCapsResponse {
    #[verifier::rlimit(60)]
    #[verifier::spinoff_prover]
    fn store_first(&self, bytes: &mut [u8], offset: usize)
        requires
            offset + 112 <= old(bytes)@.len(),
            offset + 112 <= usize::MAX,
        ensures
            self.header.laid_out(final(bytes)@, offset as int),
            self.driver_version == u32_at(final(bytes)@, offset + 48),
            self.lifecycle == u32_at(final(bytes)@, offset + 52),
            self.capability_bits == u64_at(final(bytes)@, offset + 56),
            self.aperture_end == u64_at(final(bytes)@, offset + 64),
            self.physaddr_width == final(bytes)@[offset + 72],
            self.vbs_or_hypervisor_present == final(bytes)@[offset + 73],
            self.session_available == final(bytes)@[offset + 74],
            self.reserved0 == final(bytes)@[offset + 75],
            kept(old(bytes)@, final(bytes)@, offset as int, offset + 76),
    {
        self.header.store(bytes, offset);
        store_u32(bytes, offset + 48, self.driver_version);
        store_u32(bytes, offset + 52, self.lifecycle);
        store_u64(bytes, offset + 56, self.capability_bits);
        store_u64(bytes, offset + 64, self.aperture_end);
        store_u8(bytes, offset + 72, self.physaddr_width);
        store_u8(bytes, offset + 73, self.vbs_or_hypervisor_present);
        store_u8(bytes, offset + 74, self.session_available);
        store_u8(bytes, offset + 75, self.reserved0);
    }

    #[verifier::rlimit(60)]
    #[verifier::spinoff_prover]
    fn store_rest(&self, bytes: &mut [u8], offset: usize)
        requires
            offset + 112 <= old(bytes)@.len(),
            offset + 112 <= usize::MAX,
        ensures
            self.cpu_count == u16_at(final(bytes)@, offset + 76),
            self.max_views == u16_at(final(bytes)@, offset + 78),
            self.max_drafts == u16_at(final(bytes)@, offset + 80),
            self.max_batch_edits == u16_at(final(bytes)@, offset + 82),
            self.reserved1 == u16_at(final(bytes)@, offset + 84),
            self.reserved2 == u16_at(final(bytes)@, offset + 86),
            self.max_backing_pages == u32_at(final(bytes)@, offset + 88),
            self.reserved3 == u32_at(final(bytes)@, offset + 92),
            self.reserved@[0] == u64_at(final(bytes)@, offset + 96),
            self.reserved@[1] == u64_at(final(bytes)@, offset + 104),
            kept(old(bytes)@, final(bytes)@, offset + 76, offset + 112),
    {
        store_u16(bytes, offset + 76, self.cpu_count);
        store_u16(bytes, offset + 78, self.max_views);
        store_u16(bytes, offset + 80, self.max_drafts);
        store_u16(bytes, offset + 82, self.max_batch_edits);
        store_u16(bytes, offset + 84, self.reserved1);
        store_u16(bytes, offset + 86, self.reserved2);
        store_u32(bytes, offset + 88, self.max_backing_pages);
        store_u32(bytes, offset + 92, self.reserved3);
        store_u64(bytes, offset + 96, self.reserved[0]);
        store_u64(bytes, offset + 104, self.reserved[1]);
    }
}

/// Asks the hypervisor to start. Device ranges follow.
#[derive(Clone, Copy, Debug, Default, PartialEq, Eq, Structural)]
pub struct StartVmmRequest {
    pub header: RequestHeader,
    pub aperture_limit: u64,
    pub rendezvous_timeout_tsc: u64,
    pub device_range_count: u32,
    pub reserved0: u32,
    pub reserved1: u64,
}

impl Pod for StartVmmRequest {
    open spec fn spec_size() -> int {
        56
    }

    open spec fn laid_out(self, bytes: Seq<u8>, offset: int) -> bool {
        &&& self.header.laid_out(bytes, offset)
        &&& self.aperture_limit == u64_at(bytes, offset + 24)
        &&& self.rendezvous_timeout_tsc == u64_at(bytes, offset + 32)
        &&& self.device_range_count == u32_at(bytes, offset + 40)
        &&& self.reserved0 == u32_at(bytes, offset + 44)
        &&& self.reserved1 == u64_at(bytes, offset + 48)
    }

    proof fn determined(self, other: Self, bytes: Seq<u8>, offset: int) {
        self.header.determined(other.header, bytes, offset);
    }

    fn size() -> (size: usize) {
        56
    }

    fn load(bytes: &[u8], offset: usize) -> (value: Self) {
        StartVmmRequest {
            header: RequestHeader::load(bytes, offset),
            aperture_limit: load_u64(bytes, offset + 24),
            rendezvous_timeout_tsc: load_u64(bytes, offset + 32),
            device_range_count: load_u32(bytes, offset + 40),
            reserved0: load_u32(bytes, offset + 44),
            reserved1: load_u64(bytes, offset + 48),
        }
    }

    fn store(&self, bytes: &mut [u8], offset: usize) {
        self.header.store(bytes, offset);
        store_u64(bytes, offset + 24, self.aperture_limit);
        store_u64(bytes, offset + 32, self.rendezvous_timeout_tsc);
        store_u32(bytes, offset + 40, self.device_range_count);
        store_u32(bytes, offset + 44, self.reserved0);
        store_u64(bytes, offset + 48, self.reserved1);
    }
}

/// Physical addresses of a device.
#[derive(Clone, Copy, Debug, Default, PartialEq, Eq, Structural)]
pub struct DevicePhysicalRangeWire {
    pub start: u64,
    pub length: u64,
    pub reserved: u64,
}

impl Pod for DevicePhysicalRangeWire {
    open spec fn spec_size() -> int {
        24
    }

    open spec fn laid_out(self, bytes: Seq<u8>, offset: int) -> bool {
        &&& self.start == u64_at(bytes, offset)
        &&& self.length == u64_at(bytes, offset + 8)
        &&& self.reserved == u64_at(bytes, offset + 16)
    }

    proof fn determined(self, other: Self, bytes: Seq<u8>, offset: int) {
    }

    fn size() -> (size: usize) {
        24
    }

    fn load(bytes: &[u8], offset: usize) -> (value: Self) {
        DevicePhysicalRangeWire {
            start: load_u64(bytes, offset),
            length: load_u64(bytes, offset + 8),
            reserved: load_u64(bytes, offset + 16),
        }
    }

    fn store(&self, bytes: &mut [u8], offset: usize) {
        store_u64(bytes, offset, self.start);
        store_u64(bytes, offset + 8, self.length);
        store_u64(bytes, offset + 16, self.reserved);
    }
}

/// The answer to a start.
#[derive(Clone, Copy, Debug, Default, PartialEq, Eq, Structural)]
pub struct StartVmmResponse {
    pub header: ResponseHeader,
}

impl Pod for StartVmmResponse {
    open spec fn spec_size() -> int {
        48
    }

    open spec fn laid_out(self, bytes: Seq<u8>, offset: int) -> bool {
        &&& self.header.laid_out(bytes, offset)
    }

    proof fn determined(self, other: Self, bytes: Seq<u8>, offset: int) {
        self.header.determined(other.header, bytes, offset);
    }

    fn size() -> (size: usize) {
        48
    }

    fn load(bytes: &[u8], offset: usize) -> (value: Self) {
        StartVmmResponse {
            header: ResponseHeader::load(bytes, offset),
        }
    }

    fn store(&self, bytes: &mut [u8], offset: usize) {
        self.header.store(bytes, offset);
    }
}

/// Asks for backing memory.
#[derive(Clone, Copy, Debug, Default, PartialEq, Eq, Structural)]
pub struct AllocateBackingRequest {
    pub header: RequestHeader,
    pub page_count: u32,
    pub allocation_flags: u32,
    pub reserved: u64,
}

impl Pod for AllocateBackingRequest {
    open spec fn spec_size() -> int {
        40
    }

    open spec fn laid_out(self, bytes: Seq<u8>, offset: int) -> bool {
        &&& self.header.laid_out(bytes, offset)
        &&& self.page_count == u32_at(bytes, offset + 24)
        &&& self.allocation_flags == u32_at(bytes, offset + 28)
        &&& self.reserved == u64_at(bytes, offset + 32)
    }

    proof fn determined(self, other: Self, bytes: Seq<u8>, offset: int) {
        self.header.determined(other.header, bytes, offset);
    }

    fn size() -> (size: usize) {
        40
    }

    fn load(bytes: &[u8], offset: usize) -> (value: Self) {
        AllocateBackingRequest {
            header: RequestHeader::load(bytes, offset),
            page_count: load_u32(bytes, offset + 24),
            allocation_flags: load_u32(bytes, offset + 28),
            reserved: load_u64(bytes, offset + 32),
        }
    }

    fn store(&self, bytes: &mut [u8], offset: usize) {
        self.header.store(bytes, offset);
        store_u32(bytes, offset + 24, self.page_count);
        store_u32(bytes, offset + 28, self.allocation_flags);
        store_u64(bytes, offset + 32, self.reserved);
    }
}

/// Backing memory that was allocated.
#[derive(Clone, Copy, Debug, Default, PartialEq, Eq, Structural)]
pub struct AllocateBackingResponse {
    pub header: ResponseHeader,
    pub backing: BackingIdWire,
}

impl Pod for AllocateBackingResponse {
    open spec fn spec_size() -> int {
        72
    }

    open spec fn laid_out(self, bytes: Seq<u8>, offset: int) -> bool {
        &&& self.header.laid_out(bytes, offset)
        &&& self.backing.laid_out(bytes, offset + 48)
    }

    proof fn determined(self, other: Self, bytes: Seq<u8>, offset: int) {
        self.header.determined(other.header, bytes, offset);
        self.backing.determined(other.backing, bytes, offset + 48);
    }

    fn size() -> (size: usize) {
        72
    }

    fn load(bytes: &[u8], offset: usize) -> (value: Self) {
        AllocateBackingResponse {
            header: ResponseHeader::load(bytes, offset),
            backing: BackingIdWire::load(bytes, offset + 48),
        }
    }

    fn store(&self, bytes: &mut [u8], offset: usize) {
        self.header.store(bytes, offset);
        self.backing.store(bytes, offset + 48);
    }
}

/// Writes to backing memory. The bytes follow.
#[derive(Clone, Copy, Debug, Default, PartialEq, Eq, Structural)]
pub struct WriteBackingRequest {
    pub header: RequestHeader,
    pub backing: BackingIdWire,
    pub offset: u64,
    pub data_length: u32,
    pub reserved: u32,
}

impl Pod for WriteBackingRequest {
    open spec fn spec_size() -> int {
        64
    }

    open spec fn laid_out(self, bytes: Seq<u8>, offset: int) -> bool {
        &&& self.header.laid_out(bytes, offset)
        &&& self.backing.laid_out(bytes, offset + 24)
        &&& self.offset == u64_at(bytes, offset + 48)
        &&& self.data_length == u32_at(bytes, offset + 56)
        &&& self.reserved == u32_at(bytes, offset + 60)
    }

    proof fn determined(self, other: Self, bytes: Seq<u8>, offset: int) {
        self.header.determined(other.header, bytes, offset);
        self.backing.determined(other.backing, bytes, offset + 24);
    }

    fn size() -> (size: usize) {
        64
    }

    fn load(bytes: &[u8], offset: usize) -> (value: Self) {
        WriteBackingRequest {
            header: RequestHeader::load(bytes, offset),
            backing: BackingIdWire::load(bytes, offset + 24),
            offset: load_u64(bytes, offset + 48),
            data_length: load_u32(bytes, offset + 56),
            reserved: load_u32(bytes, offset + 60),
        }
    }

    fn store(&self, bytes: &mut [u8], offset: usize) {
        self.header.store(bytes, offset);
        self.backing.store(bytes, offset + 24);
        store_u64(bytes, offset + 48, self.offset);
        store_u32(bytes, offset + 56, self.data_length);
        store_u32(bytes, offset + 60, self.reserved);
    }
}

/// The answer to a write.
#[derive(Clone, Copy, Debug, Default, PartialEq, Eq, Structural)]
pub struct WriteBackingResponse {
    pub header: ResponseHeader,
}

impl Pod for WriteBackingResponse {
    open spec fn spec_size() -> int {
        48
    }

    open spec fn laid_out(self, bytes: Seq<u8>, offset: int) -> bool {
        &&& self.header.laid_out(bytes, offset)
    }

    proof fn determined(self, other: Self, bytes: Seq<u8>, offset: int) {
        self.header.determined(other.header, bytes, offset);
    }

    fn size() -> (size: usize) {
        48
    }

    fn load(bytes: &[u8], offset: usize) -> (value: Self) {
        WriteBackingResponse {
            header: ResponseHeader::load(bytes, offset),
        }
    }

    fn store(&self, bytes: &mut [u8], offset: usize) {
        self.header.store(bytes, offset);
    }
}

/// Gives backing memory back.
#[derive(Clone, Copy, Debug, Default, PartialEq, Eq, Structural)]
pub struct FreeBackingRequest {
    pub header: RequestHeader,
    pub backing: BackingIdWire,
}

impl Pod for FreeBackingRequest {
    open spec fn spec_size() -> int {
        48
    }

    open spec fn laid_out(self, bytes: Seq<u8>, offset: int) -> bool {
        &&& self.header.laid_out(bytes, offset)
        &&& self.backing.laid_out(bytes, offset + 24)
    }

    proof fn determined(self, other: Self, bytes: Seq<u8>, offset: int) {
        self.header.determined(other.header, bytes, offset);
        self.backing.determined(other.backing, bytes, offset + 24);
    }

    fn size() -> (size: usize) {
        48
    }

    fn load(bytes: &[u8], offset: usize) -> (value: Self) {
        FreeBackingRequest {
            header: RequestHeader::load(bytes, offset),
            backing: BackingIdWire::load(bytes, offset + 24),
        }
    }

    fn store(&self, bytes: &mut [u8], offset: usize) {
        self.header.store(bytes, offset);
        self.backing.store(bytes, offset + 24);
    }
}

/// The answer to that.
#[derive(Clone, Copy, Debug, Default, PartialEq, Eq, Structural)]
pub struct FreeBackingResponse {
    pub header: ResponseHeader,
}

impl Pod for FreeBackingResponse {
    open spec fn spec_size() -> int {
        48
    }

    open spec fn laid_out(self, bytes: Seq<u8>, offset: int) -> bool {
        &&& self.header.laid_out(bytes, offset)
    }

    proof fn determined(self, other: Self, bytes: Seq<u8>, offset: int) {
        self.header.determined(other.header, bytes, offset);
    }

    fn size() -> (size: usize) {
        48
    }

    fn load(bytes: &[u8], offset: usize) -> (value: Self) {
        FreeBackingResponse {
            header: ResponseHeader::load(bytes, offset),
        }
    }

    fn store(&self, bytes: &mut [u8], offset: usize) {
        self.header.store(bytes, offset);
    }
}

/// Asks for a draft of a view.
#[derive(Clone, Copy, Debug, Default, PartialEq, Eq, Structural)]
pub struct CreateDraftRequest {
    pub header: RequestHeader,
    pub source: ViewIdWire,
    pub reserved: u32,
    pub reserved1: u32,
}

impl Pod for CreateDraftRequest {
    open spec fn spec_size() -> int {
        48
    }

    open spec fn laid_out(self, bytes: Seq<u8>, offset: int) -> bool {
        &&& self.header.laid_out(bytes, offset)
        &&& self.source.laid_out(bytes, offset + 24)
        &&& self.reserved == u32_at(bytes, offset + 40)
        &&& self.reserved1 == u32_at(bytes, offset + 44)
    }

    proof fn determined(self, other: Self, bytes: Seq<u8>, offset: int) {
        self.header.determined(other.header, bytes, offset);
        self.source.determined(other.source, bytes, offset + 24);
    }

    fn size() -> (size: usize) {
        48
    }

    fn load(bytes: &[u8], offset: usize) -> (value: Self) {
        CreateDraftRequest {
            header: RequestHeader::load(bytes, offset),
            source: ViewIdWire::load(bytes, offset + 24),
            reserved: load_u32(bytes, offset + 40),
            reserved1: load_u32(bytes, offset + 44),
        }
    }

    fn store(&self, bytes: &mut [u8], offset: usize) {
        self.header.store(bytes, offset);
        self.source.store(bytes, offset + 24);
        store_u32(bytes, offset + 40, self.reserved);
        store_u32(bytes, offset + 44, self.reserved1);
    }
}

/// A draft that was created.
#[derive(Clone, Copy, Debug, Default, PartialEq, Eq, Structural)]
pub struct CreateDraftResponse {
    pub header: ResponseHeader,
    pub draft: DraftIdWire,
}

impl Pod for CreateDraftResponse {
    open spec fn spec_size() -> int {
        72
    }

    open spec fn laid_out(self, bytes: Seq<u8>, offset: int) -> bool {
        &&& self.header.laid_out(bytes, offset)
        &&& self.draft.laid_out(bytes, offset + 48)
    }

    proof fn determined(self, other: Self, bytes: Seq<u8>, offset: int) {
        self.header.determined(other.header, bytes, offset);
        self.draft.determined(other.draft, bytes, offset + 48);
    }

    fn size() -> (size: usize) {
        72
    }

    fn load(bytes: &[u8], offset: usize) -> (value: Self) {
        CreateDraftResponse {
            header: ResponseHeader::load(bytes, offset),
            draft: DraftIdWire::load(bytes, offset + 48),
        }
    }

    fn store(&self, bytes: &mut [u8], offset: usize) {
        self.header.store(bytes, offset);
        self.draft.store(bytes, offset + 48);
    }
}

/// One edit of a batch.
#[derive(Clone, Copy, Debug, Default, PartialEq, Eq, Structural)]
pub struct EditWire {
    pub kind: u32,
    pub flags: u32,
    pub gpa: u64,
    pub length: u64,
    pub backing: BackingIdWire,
    pub backing_page: u32,
    pub permissions: u8,
    pub memory_type: u8,
    pub reserved0: u16,
    pub reserved: u64,
}

impl Pod for EditWire {
    open spec fn spec_size() -> int {
        64
    }

    open spec fn laid_out(self, bytes: Seq<u8>, offset: int) -> bool {
        &&& self.kind == u32_at(bytes, offset)
        &&& self.flags == u32_at(bytes, offset + 4)
        &&& self.gpa == u64_at(bytes, offset + 8)
        &&& self.length == u64_at(bytes, offset + 16)
        &&& self.backing.laid_out(bytes, offset + 24)
        &&& self.backing_page == u32_at(bytes, offset + 48)
        &&& self.permissions == bytes[offset + 52]
        &&& self.memory_type == bytes[offset + 53]
        &&& self.reserved0 == u16_at(bytes, offset + 54)
        &&& self.reserved == u64_at(bytes, offset + 56)
    }

    proof fn determined(self, other: Self, bytes: Seq<u8>, offset: int) {
        self.backing.determined(other.backing, bytes, offset + 24);
    }

    fn size() -> (size: usize) {
        64
    }

    fn load(bytes: &[u8], offset: usize) -> (value: Self) {
        EditWire {
            kind: load_u32(bytes, offset),
            flags: load_u32(bytes, offset + 4),
            gpa: load_u64(bytes, offset + 8),
            length: load_u64(bytes, offset + 16),
            backing: BackingIdWire::load(bytes, offset + 24),
            backing_page: load_u32(bytes, offset + 48),
            permissions: bytes[offset + 52],
            memory_type: bytes[offset + 53],
            reserved0: load_u16(bytes, offset + 54),
            reserved: load_u64(bytes, offset + 56),
        }
    }

    #[verifier::rlimit(90)]
    #[verifier::spinoff_prover]
    fn store(&self, bytes: &mut [u8], offset: usize) {
        store_u32(bytes, offset, self.kind);
        store_u32(bytes, offset + 4, self.flags);
        store_u64(bytes, offset + 8, self.gpa);
        store_u64(bytes, offset + 16, self.length);
        self.backing.store(bytes, offset + 24);
        store_u32(bytes, offset + 48, self.backing_page);
        store_u8(bytes, offset + 52, self.permissions);
        store_u8(bytes, offset + 53, self.memory_type);
        store_u16(bytes, offset + 54, self.reserved0);
        store_u64(bytes, offset + 56, self.reserved);
    }
}

/// Edits a draft. The edits follow.
#[derive(Clone, Copy, Debug, Default, PartialEq, Eq, Structural)]
pub struct ApplyEditBatchRequest {
    pub header: RequestHeader,
    pub draft: DraftIdWire,
    pub edit_count: u32,
    pub reserved: u32,
}

impl Pod for ApplyEditBatchRequest {
    open spec fn spec_size() -> int {
        56
    }

    open spec fn laid_out(self, bytes: Seq<u8>, offset: int) -> bool {
        &&& self.header.laid_out(bytes, offset)
        &&& self.draft.laid_out(bytes, offset + 24)
        &&& self.edit_count == u32_at(bytes, offset + 48)
        &&& self.reserved == u32_at(bytes, offset + 52)
    }

    proof fn determined(self, other: Self, bytes: Seq<u8>, offset: int) {
        self.header.determined(other.header, bytes, offset);
        self.draft.determined(other.draft, bytes, offset + 24);
    }

    fn size() -> (size: usize) {
        56
    }

    fn load(bytes: &[u8], offset: usize) -> (value: Self) {
        ApplyEditBatchRequest {
            header: RequestHeader::load(bytes, offset),
            draft: DraftIdWire::load(bytes, offset + 24),
            edit_count: load_u32(bytes, offset + 48),
            reserved: load_u32(bytes, offset + 52),
        }
    }

    fn store(&self, bytes: &mut [u8], offset: usize) {
        self.header.store(bytes, offset);
        self.draft.store(bytes, offset + 24);
        store_u32(bytes, offset + 48, self.edit_count);
        store_u32(bytes, offset + 52, self.reserved);
    }
}

/// The answer to a batch.
#[derive(Clone, Copy, Debug, Default, PartialEq, Eq, Structural)]
pub struct ApplyEditBatchResponse {
    pub header: ResponseHeader,
}

impl Pod for ApplyEditBatchResponse {
    open spec fn spec_size() -> int {
        48
    }

    open spec fn laid_out(self, bytes: Seq<u8>, offset: int) -> bool {
        &&& self.header.laid_out(bytes, offset)
    }

    proof fn determined(self, other: Self, bytes: Seq<u8>, offset: int) {
        self.header.determined(other.header, bytes, offset);
    }

    fn size() -> (size: usize) {
        48
    }

    fn load(bytes: &[u8], offset: usize) -> (value: Self) {
        ApplyEditBatchResponse {
            header: ResponseHeader::load(bytes, offset),
        }
    }

    fn store(&self, bytes: &mut [u8], offset: usize) {
        self.header.store(bytes, offset);
    }
}

/// Drops a draft.
#[derive(Clone, Copy, Debug, Default, PartialEq, Eq, Structural)]
pub struct DiscardDraftRequest {
    pub header: RequestHeader,
    pub draft: DraftIdWire,
}

impl Pod for DiscardDraftRequest {
    open spec fn spec_size() -> int {
        48
    }

    open spec fn laid_out(self, bytes: Seq<u8>, offset: int) -> bool {
        &&& self.header.laid_out(bytes, offset)
        &&& self.draft.laid_out(bytes, offset + 24)
    }

    proof fn determined(self, other: Self, bytes: Seq<u8>, offset: int) {
        self.header.determined(other.header, bytes, offset);
        self.draft.determined(other.draft, bytes, offset + 24);
    }

    fn size() -> (size: usize) {
        48
    }

    fn load(bytes: &[u8], offset: usize) -> (value: Self) {
        DiscardDraftRequest {
            header: RequestHeader::load(bytes, offset),
            draft: DraftIdWire::load(bytes, offset + 24),
        }
    }

    fn store(&self, bytes: &mut [u8], offset: usize) {
        self.header.store(bytes, offset);
        self.draft.store(bytes, offset + 24);
    }
}

/// The answer to that.
#[derive(Clone, Copy, Debug, Default, PartialEq, Eq, Structural)]
pub struct DiscardDraftResponse {
    pub header: ResponseHeader,
}

impl Pod for DiscardDraftResponse {
    open spec fn spec_size() -> int {
        48
    }

    open spec fn laid_out(self, bytes: Seq<u8>, offset: int) -> bool {
        &&& self.header.laid_out(bytes, offset)
    }

    proof fn determined(self, other: Self, bytes: Seq<u8>, offset: int) {
        self.header.determined(other.header, bytes, offset);
    }

    fn size() -> (size: usize) {
        48
    }

    fn load(bytes: &[u8], offset: usize) -> (value: Self) {
        DiscardDraftResponse {
            header: ResponseHeader::load(bytes, offset),
        }
    }

    fn store(&self, bytes: &mut [u8], offset: usize) {
        self.header.store(bytes, offset);
    }
}

/// Publishes a draft.
#[derive(Clone, Copy, Debug, Default, PartialEq, Eq, Structural)]
pub struct PublishViewRequest {
    pub header: RequestHeader,
    pub draft: DraftIdWire,
}

impl Pod for PublishViewRequest {
    open spec fn spec_size() -> int {
        48
    }

    open spec fn laid_out(self, bytes: Seq<u8>, offset: int) -> bool {
        &&& self.header.laid_out(bytes, offset)
        &&& self.draft.laid_out(bytes, offset + 24)
    }

    proof fn determined(self, other: Self, bytes: Seq<u8>, offset: int) {
        self.header.determined(other.header, bytes, offset);
        self.draft.determined(other.draft, bytes, offset + 24);
    }

    fn size() -> (size: usize) {
        48
    }

    fn load(bytes: &[u8], offset: usize) -> (value: Self) {
        PublishViewRequest {
            header: RequestHeader::load(bytes, offset),
            draft: DraftIdWire::load(bytes, offset + 24),
        }
    }

    fn store(&self, bytes: &mut [u8], offset: usize) {
        self.header.store(bytes, offset);
        self.draft.store(bytes, offset + 24);
    }
}

/// A view that was published.
#[derive(Clone, Copy, Debug, Default, PartialEq, Eq, Structural)]
pub struct PublishViewResponse {
    pub header: ResponseHeader,
    pub view: ViewIdWire,
    pub reserved: u32,
    pub reserved1: u32,
}

impl Pod for PublishViewResponse {
    open spec fn spec_size() -> int {
        72
    }

    open spec fn laid_out(self, bytes: Seq<u8>, offset: int) -> bool {
        &&& self.header.laid_out(bytes, offset)
        &&& self.view.laid_out(bytes, offset + 48)
        &&& self.reserved == u32_at(bytes, offset + 64)
        &&& self.reserved1 == u32_at(bytes, offset + 68)
    }

    proof fn determined(self, other: Self, bytes: Seq<u8>, offset: int) {
        self.header.determined(other.header, bytes, offset);
        self.view.determined(other.view, bytes, offset + 48);
    }

    fn size() -> (size: usize) {
        72
    }

    fn load(bytes: &[u8], offset: usize) -> (value: Self) {
        PublishViewResponse {
            header: ResponseHeader::load(bytes, offset),
            view: ViewIdWire::load(bytes, offset + 48),
            reserved: load_u32(bytes, offset + 64),
            reserved1: load_u32(bytes, offset + 68),
        }
    }

    fn store(&self, bytes: &mut [u8], offset: usize) {
        self.header.store(bytes, offset);
        self.view.store(bytes, offset + 48);
        store_u32(bytes, offset + 64, self.reserved);
        store_u32(bytes, offset + 68, self.reserved1);
    }
}

/// Asks what an address maps to.
#[derive(Clone, Copy, Debug, Default, PartialEq, Eq, Structural)]
pub struct QueryMappingRequest {
    pub header: RequestHeader,
    pub object_kind: u32,
    pub reserved0: u32,
    pub view: ViewIdWire,
    pub draft: DraftIdWire,
    pub gpa: u64,
}

impl Pod for QueryMappingRequest {
    open spec fn spec_size() -> int {
        80
    }

    open spec fn laid_out(self, bytes: Seq<u8>, offset: int) -> bool {
        &&& self.header.laid_out(bytes, offset)
        &&& self.object_kind == u32_at(bytes, offset + 24)
        &&& self.reserved0 == u32_at(bytes, offset + 28)
        &&& self.view.laid_out(bytes, offset + 32)
        &&& self.draft.laid_out(bytes, offset + 48)
        &&& self.gpa == u64_at(bytes, offset + 72)
    }

    proof fn determined(self, other: Self, bytes: Seq<u8>, offset: int) {
        self.header.determined(other.header, bytes, offset);
        self.view.determined(other.view, bytes, offset + 32);
        self.draft.determined(other.draft, bytes, offset + 48);
    }

    fn size() -> (size: usize) {
        80
    }

    fn load(bytes: &[u8], offset: usize) -> (value: Self) {
        QueryMappingRequest {
            header: RequestHeader::load(bytes, offset),
            object_kind: load_u32(bytes, offset + 24),
            reserved0: load_u32(bytes, offset + 28),
            view: ViewIdWire::load(bytes, offset + 32),
            draft: DraftIdWire::load(bytes, offset + 48),
            gpa: load_u64(bytes, offset + 72),
        }
    }

    fn store(&self, bytes: &mut [u8], offset: usize) {
        self.header.store(bytes, offset);
        store_u32(bytes, offset + 24, self.object_kind);
        store_u32(bytes, offset + 28, self.reserved0);
        self.view.store(bytes, offset + 32);
        self.draft.store(bytes, offset + 48);
        store_u64(bytes, offset + 72, self.gpa);
    }
}

/// What an address maps to.
#[derive(Clone, Copy, Debug, Default, PartialEq, Eq)]
pub struct QueryMappingResponse {
    pub header: ResponseHeader,
    pub mapped: u8,
    pub permissions: u8,
    pub memory_type: u8,
    pub leaf_size_log2: u8,
    pub source_kind: u32,
    pub source_backing: BackingIdWire,
    pub page_offset: u64,
    pub reserved: [u64; 2],
}

impl Pod for QueryMappingResponse {
    open spec fn spec_size() -> int {
        104
    }

    open spec fn laid_out(self, bytes: Seq<u8>, offset: int) -> bool {
        &&& self.header.laid_out(bytes, offset)
        &&& self.mapped == bytes[offset + 48]
        &&& self.permissions == bytes[offset + 49]
        &&& self.memory_type == bytes[offset + 50]
        &&& self.leaf_size_log2 == bytes[offset + 51]
        &&& self.source_kind == u32_at(bytes, offset + 52)
        &&& self.source_backing.laid_out(bytes, offset + 56)
        &&& self.page_offset == u64_at(bytes, offset + 80)
        &&& self.reserved@[0] == u64_at(bytes, offset + 88)
        &&& self.reserved@[1] == u64_at(bytes, offset + 96)
    }

    proof fn determined(self, other: Self, bytes: Seq<u8>, offset: int) {
        self.header.determined(other.header, bytes, offset);
        self.source_backing.determined(other.source_backing, bytes, offset + 56);
        assert(self.reserved =~= other.reserved);
    }

    fn size() -> (size: usize) {
        104
    }

    fn load(bytes: &[u8], offset: usize) -> (value: Self) {
        QueryMappingResponse {
            header: ResponseHeader::load(bytes, offset),
            mapped: bytes[offset + 48],
            permissions: bytes[offset + 49],
            memory_type: bytes[offset + 50],
            leaf_size_log2: bytes[offset + 51],
            source_kind: load_u32(bytes, offset + 52),
            source_backing: BackingIdWire::load(bytes, offset + 56),
            page_offset: load_u64(bytes, offset + 80),
            reserved: [
                load_u64(bytes, offset + 88),
                load_u64(bytes, offset + 96),
            ],
        }
    }

    #[verifier::rlimit(90)]
    #[verifier::spinoff_prover]
    fn store(&self, bytes: &mut [u8], offset: usize) {
        self.header.store(bytes, offset);
        store_u8(bytes, offset + 48, self.mapped);
        store_u8(bytes, offset + 49, self.permissions);
        store_u8(bytes, offset + 50, self.memory_type);
        store_u8(bytes, offset + 51, self.leaf_size_log2);
        store_u32(bytes, offset + 52, self.source_kind);
        self.source_backing.store(bytes, offset + 56);
        store_u64(bytes, offset + 80, self.page_offset);
        store_u64(bytes, offset + 88, self.reserved[0]);
        store_u64(bytes, offset + 96, self.reserved[1]);
    }
}

/// Asks for the published views.
#[derive(Clone, Copy, Debug, Default, PartialEq, Eq, Structural)]
pub struct ListViewsRequest {
    pub header: RequestHeader,
    pub start_index: u32,
    pub max_records: u32,
}

impl Pod for ListViewsRequest {
    open spec fn spec_size() -> int {
        32
    }

    open spec fn laid_out(self, bytes: Seq<u8>, offset: int) -> bool {
        &&& self.header.laid_out(bytes, offset)
        &&& self.start_index == u32_at(bytes, offset + 24)
        &&& self.max_records == u32_at(bytes, offset + 28)
    }

    proof fn determined(self, other: Self, bytes: Seq<u8>, offset: int) {
        self.header.determined(other.header, bytes, offset);
    }

    fn size() -> (size: usize) {
        32
    }

    fn load(bytes: &[u8], offset: usize) -> (value: Self) {
        ListViewsRequest {
            header: RequestHeader::load(bytes, offset),
            start_index: load_u32(bytes, offset + 24),
            max_records: load_u32(bytes, offset + 28),
        }
    }

    fn store(&self, bytes: &mut [u8], offset: usize) {
        self.header.store(bytes, offset);
        store_u32(bytes, offset + 24, self.start_index);
        store_u32(bytes, offset + 28, self.max_records);
    }
}

/// One published view.
#[derive(Clone, Copy, Debug, Default, PartialEq, Eq)]
pub struct ViewRecordWire {
    pub id: ViewIdWire,
    pub source: ViewIdWire,
    pub state: u32,
    pub table_pages: u32,
    pub leaf_count: u64,
    pub readable_pages: u64,
    pub writable_pages: u64,
    pub executable_pages: u64,
    pub backing_ref_count: u32,
    pub cpu_word_count: u32,
    pub active_cpu_set: [u64; 4],
}

impl Pod for ViewRecordWire {
    open spec fn spec_size() -> int {
        112
    }

    open spec fn laid_out(self, bytes: Seq<u8>, offset: int) -> bool {
        &&& self.id.laid_out(bytes, offset)
        &&& self.source.laid_out(bytes, offset + 16)
        &&& self.state == u32_at(bytes, offset + 32)
        &&& self.table_pages == u32_at(bytes, offset + 36)
        &&& self.leaf_count == u64_at(bytes, offset + 40)
        &&& self.readable_pages == u64_at(bytes, offset + 48)
        &&& self.writable_pages == u64_at(bytes, offset + 56)
        &&& self.executable_pages == u64_at(bytes, offset + 64)
        &&& self.backing_ref_count == u32_at(bytes, offset + 72)
        &&& self.cpu_word_count == u32_at(bytes, offset + 76)
        &&& self.active_cpu_set@[0] == u64_at(bytes, offset + 80)
        &&& self.active_cpu_set@[1] == u64_at(bytes, offset + 88)
        &&& self.active_cpu_set@[2] == u64_at(bytes, offset + 96)
        &&& self.active_cpu_set@[3] == u64_at(bytes, offset + 104)
    }

    proof fn determined(self, other: Self, bytes: Seq<u8>, offset: int) {
        self.id.determined(other.id, bytes, offset);
        self.source.determined(other.source, bytes, offset + 16);
        assert(self.active_cpu_set =~= other.active_cpu_set);
    }

    fn size() -> (size: usize) {
        112
    }

    fn load(bytes: &[u8], offset: usize) -> (value: Self) {
        ViewRecordWire {
            id: ViewIdWire::load(bytes, offset),
            source: ViewIdWire::load(bytes, offset + 16),
            state: load_u32(bytes, offset + 32),
            table_pages: load_u32(bytes, offset + 36),
            leaf_count: load_u64(bytes, offset + 40),
            readable_pages: load_u64(bytes, offset + 48),
            writable_pages: load_u64(bytes, offset + 56),
            executable_pages: load_u64(bytes, offset + 64),
            backing_ref_count: load_u32(bytes, offset + 72),
            cpu_word_count: load_u32(bytes, offset + 76),
            active_cpu_set: [
                load_u64(bytes, offset + 80),
                load_u64(bytes, offset + 88),
                load_u64(bytes, offset + 96),
                load_u64(bytes, offset + 104),
            ],
        }
    }

    #[verifier::rlimit(90)]
    #[verifier::spinoff_prover]
    fn store(&self, bytes: &mut [u8], offset: usize) {
        self.id.store(bytes, offset);
        self.source.store(bytes, offset + 16);
        store_u32(bytes, offset + 32, self.state);
        store_u32(bytes, offset + 36, self.table_pages);
        store_u64(bytes, offset + 40, self.leaf_count);
        store_u64(bytes, offset + 48, self.readable_pages);
        store_u64(bytes, offset + 56, self.writable_pages);
        store_u64(bytes, offset + 64, self.executable_pages);
        store_u32(bytes, offset + 72, self.backing_ref_count);
        store_u32(bytes, offset + 76, self.cpu_word_count);
        store_u64(bytes, offset + 80, self.active_cpu_set[0]);
        store_u64(bytes, offset + 88, self.active_cpu_set[1]);
        store_u64(bytes, offset + 96, self.active_cpu_set[2]);
        store_u64(bytes, offset + 104, self.active_cpu_set[3]);
    }
}

/// The published views. Their records follow.
#[derive(Clone, Copy, Debug, Default, PartialEq, Eq, Structural)]
pub struct ListViewsResponse {
    pub header: ResponseHeader,
    pub record_count: u32,
    pub total_count: u32,
}

impl Pod for ListViewsResponse {
    open spec fn spec_size() -> int {
        56
    }

    open spec fn laid_out(self, bytes: Seq<u8>, offset: int) -> bool {
        &&& self.header.laid_out(bytes, offset)
        &&& self.record_count == u32_at(bytes, offset + 48)
        &&& self.total_count == u32_at(bytes, offset + 52)
    }

    proof fn determined(self, other: Self, bytes: Seq<u8>, offset: int) {
        self.header.determined(other.header, bytes, offset);
    }

    fn size() -> (size: usize) {
        56
    }

    fn load(bytes: &[u8], offset: usize) -> (value: Self) {
        ListViewsResponse {
            header: ResponseHeader::load(bytes, offset),
            record_count: load_u32(bytes, offset + 48),
            total_count: load_u32(bytes, offset + 52),
        }
    }

    fn store(&self, bytes: &mut [u8], offset: usize) {
        self.header.store(bytes, offset);
        store_u32(bytes, offset + 48, self.record_count);
        store_u32(bytes, offset + 52, self.total_count);
    }
}

/// Activates a view. The processor set follows.
#[derive(Clone, Copy, Debug, Default, PartialEq, Eq, Structural)]
pub struct ActivateViewRequest {
    pub header: RequestHeader,
    pub view: ViewIdWire,
    pub cpu_word_count: u32,
    pub reserved: u32,
}

impl Pod for ActivateViewRequest {
    open spec fn spec_size() -> int {
        48
    }

    open spec fn laid_out(self, bytes: Seq<u8>, offset: int) -> bool {
        &&& self.header.laid_out(bytes, offset)
        &&& self.view.laid_out(bytes, offset + 24)
        &&& self.cpu_word_count == u32_at(bytes, offset + 40)
        &&& self.reserved == u32_at(bytes, offset + 44)
    }

    proof fn determined(self, other: Self, bytes: Seq<u8>, offset: int) {
        self.header.determined(other.header, bytes, offset);
        self.view.determined(other.view, bytes, offset + 24);
    }

    fn size() -> (size: usize) {
        48
    }

    fn load(bytes: &[u8], offset: usize) -> (value: Self) {
        ActivateViewRequest {
            header: RequestHeader::load(bytes, offset),
            view: ViewIdWire::load(bytes, offset + 24),
            cpu_word_count: load_u32(bytes, offset + 40),
            reserved: load_u32(bytes, offset + 44),
        }
    }

    fn store(&self, bytes: &mut [u8], offset: usize) {
        self.header.store(bytes, offset);
        self.view.store(bytes, offset + 24);
        store_u32(bytes, offset + 40, self.cpu_word_count);
        store_u32(bytes, offset + 44, self.reserved);
    }
}

/// The answer to an activation.
#[derive(Clone, Copy, Debug, Default, PartialEq, Eq, Structural)]
pub struct ActivateViewResponse {
    pub header: ResponseHeader,
}

impl Pod for ActivateViewResponse {
    open spec fn spec_size() -> int {
        48
    }

    open spec fn laid_out(self, bytes: Seq<u8>, offset: int) -> bool {
        &&& self.header.laid_out(bytes, offset)
    }

    proof fn determined(self, other: Self, bytes: Seq<u8>, offset: int) {
        self.header.determined(other.header, bytes, offset);
    }

    fn size() -> (size: usize) {
        48
    }

    fn load(bytes: &[u8], offset: usize) -> (value: Self) {
        ActivateViewResponse {
            header: ResponseHeader::load(bytes, offset),
        }
    }

    fn store(&self, bytes: &mut [u8], offset: usize) {
        self.header.store(bytes, offset);
    }
}

/// Asks for the events of a processor.
#[derive(Clone, Copy, Debug, Default, PartialEq, Eq, Structural)]
pub struct ReadEventsRequest {
    pub header: RequestHeader,
    pub cpu_dense_index: u16,
    pub reserved0: u16,
    pub max_records: u32,
    pub after_sequence: u64,
}

impl Pod for ReadEventsRequest {
    open spec fn spec_size() -> int {
        40
    }

    open spec fn laid_out(self, bytes: Seq<u8>, offset: int) -> bool {
        &&& self.header.laid_out(bytes, offset)
        &&& self.cpu_dense_index == u16_at(bytes, offset + 24)
        &&& self.reserved0 == u16_at(bytes, offset + 26)
        &&& self.max_records == u32_at(bytes, offset + 28)
        &&& self.after_sequence == u64_at(bytes, offset + 32)
    }

    proof fn determined(self, other: Self, bytes: Seq<u8>, offset: int) {
        self.header.determined(other.header, bytes, offset);
    }

    fn size() -> (size: usize) {
        40
    }

    fn load(bytes: &[u8], offset: usize) -> (value: Self) {
        ReadEventsRequest {
            header: RequestHeader::load(bytes, offset),
            cpu_dense_index: load_u16(bytes, offset + 24),
            reserved0: load_u16(bytes, offset + 26),
            max_records: load_u32(bytes, offset + 28),
            after_sequence: load_u64(bytes, offset + 32),
        }
    }

    fn store(&self, bytes: &mut [u8], offset: usize) {
        self.header.store(bytes, offset);
        store_u16(bytes, offset + 24, self.cpu_dense_index);
        store_u16(bytes, offset + 26, self.reserved0);
        store_u32(bytes, offset + 28, self.max_records);
        store_u64(bytes, offset + 32, self.after_sequence);
    }
}

/// Events of a processor. Their records follow.
#[derive(Clone, Copy, Debug, Default, PartialEq, Eq, Structural)]
pub struct ReadEventsResponse {
    pub header: ResponseHeader,
    pub record_count: u32,
    pub reserved: u32,
    pub next_sequence: u64,
    pub dropped: u64,
}

impl Pod for ReadEventsResponse {
    open spec fn spec_size() -> int {
        72
    }

    open spec fn laid_out(self, bytes: Seq<u8>, offset: int) -> bool {
        &&& self.header.laid_out(bytes, offset)
        &&& self.record_count == u32_at(bytes, offset + 48)
        &&& self.reserved == u32_at(bytes, offset + 52)
        &&& self.next_sequence == u64_at(bytes, offset + 56)
        &&& self.dropped == u64_at(bytes, offset + 64)
    }

    proof fn determined(self, other: Self, bytes: Seq<u8>, offset: int) {
        self.header.determined(other.header, bytes, offset);
    }

    fn size() -> (size: usize) {
        72
    }

    fn load(bytes: &[u8], offset: usize) -> (value: Self) {
        ReadEventsResponse {
            header: ResponseHeader::load(bytes, offset),
            record_count: load_u32(bytes, offset + 48),
            reserved: load_u32(bytes, offset + 52),
            next_sequence: load_u64(bytes, offset + 56),
            dropped: load_u64(bytes, offset + 64),
        }
    }

    fn store(&self, bytes: &mut [u8], offset: usize) {
        self.header.store(bytes, offset);
        store_u32(bytes, offset + 48, self.record_count);
        store_u32(bytes, offset + 52, self.reserved);
        store_u64(bytes, offset + 56, self.next_sequence);
        store_u64(bytes, offset + 64, self.dropped);
    }
}

/// Asks for the state of a processor.
#[derive(Clone, Copy, Debug, Default, PartialEq, Eq, Structural)]
pub struct GetVcpuStateRequest {
    pub header: RequestHeader,
    pub cpu_dense_index: u16,
    pub reserved0: u16,
    pub reserved: u32,
}

impl Pod for GetVcpuStateRequest {
    open spec fn spec_size() -> int {
        32
    }

    open spec fn laid_out(self, bytes: Seq<u8>, offset: int) -> bool {
        &&& self.header.laid_out(bytes, offset)
        &&& self.cpu_dense_index == u16_at(bytes, offset + 24)
        &&& self.reserved0 == u16_at(bytes, offset + 26)
        &&& self.reserved == u32_at(bytes, offset + 28)
    }

    proof fn determined(self, other: Self, bytes: Seq<u8>, offset: int) {
        self.header.determined(other.header, bytes, offset);
    }

    fn size() -> (size: usize) {
        32
    }

    fn load(bytes: &[u8], offset: usize) -> (value: Self) {
        GetVcpuStateRequest {
            header: RequestHeader::load(bytes, offset),
            cpu_dense_index: load_u16(bytes, offset + 24),
            reserved0: load_u16(bytes, offset + 26),
            reserved: load_u32(bytes, offset + 28),
        }
    }

    fn store(&self, bytes: &mut [u8], offset: usize) {
        self.header.store(bytes, offset);
        store_u16(bytes, offset + 24, self.cpu_dense_index);
        store_u16(bytes, offset + 26, self.reserved0);
        store_u32(bytes, offset + 28, self.reserved);
    }
}

/// The state of a processor.
#[derive(Clone, Copy, Debug, Default, PartialEq, Eq)]
pub struct GetVcpuStateResponse {
    pub header: ResponseHeader,
    pub cpu_dense_index: u16,
    pub vmx_state: u8,
    pub reserved0: u8,
    pub reserved1: u32,
    pub active_view: ViewIdWire,
    pub last_epoch: u64,
    pub last_fatal: u32,
    pub last_mailbox: u32,
    pub event_sequence: u64,
    pub reserved: [u64; 2],
}

impl Pod for GetVcpuStateResponse {
    open spec fn spec_size() -> int {
        112
    }

    open spec fn laid_out(self, bytes: Seq<u8>, offset: int) -> bool {
        &&& self.header.laid_out(bytes, offset)
        &&& self.cpu_dense_index == u16_at(bytes, offset + 48)
        &&& self.vmx_state == bytes[offset + 50]
        &&& self.reserved0 == bytes[offset + 51]
        &&& self.reserved1 == u32_at(bytes, offset + 52)
        &&& self.active_view.laid_out(bytes, offset + 56)
        &&& self.last_epoch == u64_at(bytes, offset + 72)
        &&& self.last_fatal == u32_at(bytes, offset + 80)
        &&& self.last_mailbox == u32_at(bytes, offset + 84)
        &&& self.event_sequence == u64_at(bytes, offset + 88)
        &&& self.reserved@[0] == u64_at(bytes, offset + 96)
        &&& self.reserved@[1] == u64_at(bytes, offset + 104)
    }

    proof fn determined(self, other: Self, bytes: Seq<u8>, offset: int) {
        self.header.determined(other.header, bytes, offset);
        self.active_view.determined(other.active_view, bytes, offset + 56);
        assert(self.reserved =~= other.reserved);
    }

    fn size() -> (size: usize) {
        112
    }

    fn load(bytes: &[u8], offset: usize) -> (value: Self) {
        GetVcpuStateResponse {
            header: ResponseHeader::load(bytes, offset),
            cpu_dense_index: load_u16(bytes, offset + 48),
            vmx_state: bytes[offset + 50],
            reserved0: bytes[offset + 51],
            reserved1: load_u32(bytes, offset + 52),
            active_view: ViewIdWire::load(bytes, offset + 56),
            last_epoch: load_u64(bytes, offset + 72),
            last_fatal: load_u32(bytes, offset + 80),
            last_mailbox: load_u32(bytes, offset + 84),
            event_sequence: load_u64(bytes, offset + 88),
            reserved: [
                load_u64(bytes, offset + 96),
                load_u64(bytes, offset + 104),
            ],
        }
    }

    #[verifier::rlimit(90)]
    #[verifier::spinoff_prover]
    fn store(&self, bytes: &mut [u8], offset: usize) {
        self.header.store(bytes, offset);
        store_u16(bytes, offset + 48, self.cpu_dense_index);
        store_u8(bytes, offset + 50, self.vmx_state);
        store_u8(bytes, offset + 51, self.reserved0);
        store_u32(bytes, offset + 52, self.reserved1);
        self.active_view.store(bytes, offset + 56);
        store_u64(bytes, offset + 72, self.last_epoch);
        store_u32(bytes, offset + 80, self.last_fatal);
        store_u32(bytes, offset + 84, self.last_mailbox);
        store_u64(bytes, offset + 88, self.event_sequence);
        store_u64(bytes, offset + 96, self.reserved[0]);
        store_u64(bytes, offset + 104, self.reserved[1]);
    }
}

} // verus!
