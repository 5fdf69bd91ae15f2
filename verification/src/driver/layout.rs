//! Where every part of every request and response lies: one behind the other,
//! in the order in which they are declared, each with its lowest byte first.

use vstd::prelude::*;

use super::wire;
use super::wire::{
    ActivateViewRequest, ActivateViewResponse, AllocateBackingRequest, AllocateBackingResponse,
    ApplyEditBatchRequest, ApplyEditBatchResponse, BackingIdWire, CpuSetWordWire,
    CreateDraftRequest, CreateDraftResponse, DevicePhysicalRangeWire, DiscardDraftRequest,
    DiscardDraftResponse, DraftIdWire, EditWire, EmptyResponse, FreeBackingRequest,
    FreeBackingResponse, GetCapsRequest, GetCapsResponse, GetVcpuStateRequest,
    GetVcpuStateResponse, ListViewsRequest, ListViewsResponse, MonadErrorWire, Pod,
    PublishViewRequest, PublishViewResponse, QueryMappingRequest, QueryMappingResponse,
    ReadEventsRequest, ReadEventsResponse, RequestHeader, ResponseHeader, StartVmmRequest,
    StartVmmResponse, StopVmmRequest, StopVmmResponse, ViewIdWire, ViewRecordWire,
    WriteBackingRequest, WriteBackingResponse,
};

verus! {

/// The number that some bytes make, the lowest first.
pub open spec fn number(bytes: Seq<u8>, offset: int, count: nat) -> int
    decreases count,
{
    if count == 0 {
        0
    } else {
        bytes[offset] + 0x100 * number(bytes, offset + 1, (count - 1) as nat)
    }
}

proof fn lemma_bytes(a: u8, b: u8, c: u8, d: u8, e: u8, f: u8, g: u8, h: u8)
    by (bit_vector)
    ensures
        a as u16 | ((b as u16) << 8) == a + 0x100 * b,
        a as u32 | ((b as u32) << 8) | ((c as u32) << 16) | ((d as u32) << 24) == a + 0x100 * b
            + 0x1_0000 * c + 0x100_0000 * d,
        a as u64 | ((b as u64) << 8) | ((c as u64) << 16) | ((d as u64) << 24) | ((e as u64) << 32)
            | ((f as u64) << 40) | ((g as u64) << 48) | ((h as u64) << 56) == a + 0x100 * b
            + 0x1_0000 * c + 0x100_0000 * d + 0x1_0000_0000 * e + 0x100_0000_0000 * f
            + 0x1_0000_0000_0000 * g + 0x100_0000_0000_0000 * h,
{
}

/// Numbers of two, four and eight bytes.
pub proof fn law_numbers_have_their_lowest_byte_first(bytes: Seq<u8>, offset: int)
    ensures
        wire::u16_at(bytes, offset) == number(bytes, offset, 2),
        wire::u32_at(bytes, offset) == number(bytes, offset, 4),
        wire::u64_at(bytes, offset) == number(bytes, offset, 8),
{
    reveal(wire::u16_at);
    reveal(wire::u32_at);
    reveal(wire::u64_at);
    reveal_with_fuel(number, 9);
    lemma_bytes(
        bytes[offset],
        bytes[offset + 1],
        bytes[offset + 2],
        bytes[offset + 3],
        bytes[offset + 4],
        bytes[offset + 5],
        bytes[offset + 6],
        bytes[offset + 7],
    );
    assert(bytes[offset + 1 + 1] == bytes[offset + 2]);
}

/// The bytes of one `RequestHeader`.
pub proof fn law_layout_of_request_header(value: RequestHeader, bytes: Seq<u8>, offset: int)
    ensures
        RequestHeader::spec_size() == 24,
        value.laid_out(bytes, offset) <==> {
            &&& value.abi_version == number(bytes, offset, 2)
            &&& value.struct_size == number(bytes, offset + 2, 2)
            &&& value.flags == number(bytes, offset + 4, 4)
            &&& value.request_id == number(bytes, offset + 8, 8)
            &&& value.session_nonce == number(bytes, offset + 16, 8)
        },
{
    law_numbers_have_their_lowest_byte_first(bytes, offset);
    law_numbers_have_their_lowest_byte_first(bytes, offset + 2);
    law_numbers_have_their_lowest_byte_first(bytes, offset + 4);
    law_numbers_have_their_lowest_byte_first(bytes, offset + 8);
    law_numbers_have_their_lowest_byte_first(bytes, offset + 16);
}

/// The bytes of one `MonadErrorWire`.
pub proof fn law_layout_of_monad_error_wire(value: MonadErrorWire, bytes: Seq<u8>, offset: int)
    ensures
        MonadErrorWire::spec_size() == 24,
        value.laid_out(bytes, offset) <==> {
            &&& value.phase == number(bytes, offset, 4)
            &&& value.code == number(bytes, offset + 4, 4)
            &&& value.cpu_dense_index == number(bytes, offset + 8, 2)
            &&& value.reserved == number(bytes, offset + 10, 2)
            &&& value.operation_index == number(bytes, offset + 12, 4)
            &&& value.detail == number(bytes, offset + 16, 8)
        },
{
    law_numbers_have_their_lowest_byte_first(bytes, offset);
    law_numbers_have_their_lowest_byte_first(bytes, offset + 4);
    law_numbers_have_their_lowest_byte_first(bytes, offset + 8);
    law_numbers_have_their_lowest_byte_first(bytes, offset + 10);
    law_numbers_have_their_lowest_byte_first(bytes, offset + 12);
    law_numbers_have_their_lowest_byte_first(bytes, offset + 16);
}

/// The bytes of one `ResponseHeader`.
pub proof fn law_layout_of_response_header(value: ResponseHeader, bytes: Seq<u8>, offset: int)
    ensures
        ResponseHeader::spec_size() == 48,
        value.laid_out(bytes, offset) <==> {
            &&& value.abi_version == number(bytes, offset, 2)
            &&& value.struct_size == number(bytes, offset + 2, 2)
            &&& value.flags == number(bytes, offset + 4, 4)
            &&& value.request_id == number(bytes, offset + 8, 8)
            &&& value.session_nonce == number(bytes, offset + 16, 8)
            &&& value.error.phase == number(bytes, offset + 24, 4)
            &&& value.error.code == number(bytes, offset + 28, 4)
            &&& value.error.cpu_dense_index == number(bytes, offset + 32, 2)
            &&& value.error.reserved == number(bytes, offset + 34, 2)
            &&& value.error.operation_index == number(bytes, offset + 36, 4)
            &&& value.error.detail == number(bytes, offset + 40, 8)
        },
{
    law_numbers_have_their_lowest_byte_first(bytes, offset);
    law_numbers_have_their_lowest_byte_first(bytes, offset + 2);
    law_numbers_have_their_lowest_byte_first(bytes, offset + 4);
    law_numbers_have_their_lowest_byte_first(bytes, offset + 8);
    law_numbers_have_their_lowest_byte_first(bytes, offset + 16);
    law_numbers_have_their_lowest_byte_first(bytes, offset + 24);
    law_numbers_have_their_lowest_byte_first(bytes, offset + 28);
    law_numbers_have_their_lowest_byte_first(bytes, offset + 32);
    law_numbers_have_their_lowest_byte_first(bytes, offset + 34);
    law_numbers_have_their_lowest_byte_first(bytes, offset + 36);
    law_numbers_have_their_lowest_byte_first(bytes, offset + 40);
}

/// The bytes of one `ViewIdWire`.
pub proof fn law_layout_of_view_id_wire(value: ViewIdWire, bytes: Seq<u8>, offset: int)
    ensures
        ViewIdWire::spec_size() == 16,
        value.laid_out(bytes, offset) <==> {
            &&& value.slot == number(bytes, offset, 2)
            &&& value.reserved == number(bytes, offset + 2, 2)
            &&& value.reserved1 == number(bytes, offset + 4, 4)
            &&& value.generation == number(bytes, offset + 8, 8)
        },
{
    law_numbers_have_their_lowest_byte_first(bytes, offset);
    law_numbers_have_their_lowest_byte_first(bytes, offset + 2);
    law_numbers_have_their_lowest_byte_first(bytes, offset + 4);
    law_numbers_have_their_lowest_byte_first(bytes, offset + 8);
}

/// The bytes of one `DraftIdWire`.
pub proof fn law_layout_of_draft_id_wire(value: DraftIdWire, bytes: Seq<u8>, offset: int)
    ensures
        DraftIdWire::spec_size() == 24,
        value.laid_out(bytes, offset) <==> {
            &&& value.slot == number(bytes, offset, 2)
            &&& value.reserved == number(bytes, offset + 2, 2)
            &&& value.reserved1 == number(bytes, offset + 4, 4)
            &&& value.generation == number(bytes, offset + 8, 8)
            &&& value.session_nonce == number(bytes, offset + 16, 8)
        },
{
    law_numbers_have_their_lowest_byte_first(bytes, offset);
    law_numbers_have_their_lowest_byte_first(bytes, offset + 2);
    law_numbers_have_their_lowest_byte_first(bytes, offset + 4);
    law_numbers_have_their_lowest_byte_first(bytes, offset + 8);
    law_numbers_have_their_lowest_byte_first(bytes, offset + 16);
}

/// The bytes of one `BackingIdWire`.
pub proof fn law_layout_of_backing_id_wire(value: BackingIdWire, bytes: Seq<u8>, offset: int)
    ensures
        BackingIdWire::spec_size() == 24,
        value.laid_out(bytes, offset) <==> {
            &&& value.slot == number(bytes, offset, 4)
            &&& value.reserved == number(bytes, offset + 4, 4)
            &&& value.generation == number(bytes, offset + 8, 8)
            &&& value.session_nonce == number(bytes, offset + 16, 8)
        },
{
    law_numbers_have_their_lowest_byte_first(bytes, offset);
    law_numbers_have_their_lowest_byte_first(bytes, offset + 4);
    law_numbers_have_their_lowest_byte_first(bytes, offset + 8);
    law_numbers_have_their_lowest_byte_first(bytes, offset + 16);
}

/// The bytes of one `CpuSetWordWire`.
pub proof fn law_layout_of_cpu_set_word_wire(value: CpuSetWordWire, bytes: Seq<u8>, offset: int)
    ensures
        CpuSetWordWire::spec_size() == 16,
        value.laid_out(bytes, offset) <==> {
            &&& value.group == number(bytes, offset, 2)
            &&& value.reserved == number(bytes, offset + 2, 2)
            &&& value.reserved1 == number(bytes, offset + 4, 4)
            &&& value.mask == number(bytes, offset + 8, 8)
        },
{
    law_numbers_have_their_lowest_byte_first(bytes, offset);
    law_numbers_have_their_lowest_byte_first(bytes, offset + 2);
    law_numbers_have_their_lowest_byte_first(bytes, offset + 4);
    law_numbers_have_their_lowest_byte_first(bytes, offset + 8);
}

/// The bytes of one `GetCapsRequest`.
pub proof fn law_layout_of_get_caps_request(value: GetCapsRequest, bytes: Seq<u8>, offset: int)
    ensures
        GetCapsRequest::spec_size() == 24,
        value.laid_out(bytes, offset) <==> {
            &&& value.header.abi_version == number(bytes, offset, 2)
            &&& value.header.struct_size == number(bytes, offset + 2, 2)
            &&& value.header.flags == number(bytes, offset + 4, 4)
            &&& value.header.request_id == number(bytes, offset + 8, 8)
            &&& value.header.session_nonce == number(bytes, offset + 16, 8)
        },
{
    law_numbers_have_their_lowest_byte_first(bytes, offset);
    law_numbers_have_their_lowest_byte_first(bytes, offset + 2);
    law_numbers_have_their_lowest_byte_first(bytes, offset + 4);
    law_numbers_have_their_lowest_byte_first(bytes, offset + 8);
    law_numbers_have_their_lowest_byte_first(bytes, offset + 16);
}

/// The bytes of one `EmptyResponse`.
pub proof fn law_layout_of_empty_response(value: EmptyResponse, bytes: Seq<u8>, offset: int)
    ensures
        EmptyResponse::spec_size() == 48,
        value.laid_out(bytes, offset) <==> {
            &&& value.header.abi_version == number(bytes, offset, 2)
            &&& value.header.struct_size == number(bytes, offset + 2, 2)
            &&& value.header.flags == number(bytes, offset + 4, 4)
            &&& value.header.request_id == number(bytes, offset + 8, 8)
            &&& value.header.session_nonce == number(bytes, offset + 16, 8)
            &&& value.header.error.phase == number(bytes, offset + 24, 4)
            &&& value.header.error.code == number(bytes, offset + 28, 4)
            &&& value.header.error.cpu_dense_index == number(bytes, offset + 32, 2)
            &&& value.header.error.reserved == number(bytes, offset + 34, 2)
            &&& value.header.error.operation_index == number(bytes, offset + 36, 4)
            &&& value.header.error.detail == number(bytes, offset + 40, 8)
        },
{
    law_numbers_have_their_lowest_byte_first(bytes, offset);
    law_numbers_have_their_lowest_byte_first(bytes, offset + 2);
    law_numbers_have_their_lowest_byte_first(bytes, offset + 4);
    law_numbers_have_their_lowest_byte_first(bytes, offset + 8);
    law_numbers_have_their_lowest_byte_first(bytes, offset + 16);
    law_numbers_have_their_lowest_byte_first(bytes, offset + 24);
    law_numbers_have_their_lowest_byte_first(bytes, offset + 28);
    law_numbers_have_their_lowest_byte_first(bytes, offset + 32);
    law_numbers_have_their_lowest_byte_first(bytes, offset + 34);
    law_numbers_have_their_lowest_byte_first(bytes, offset + 36);
    law_numbers_have_their_lowest_byte_first(bytes, offset + 40);
}

/// The bytes of one `StopVmmRequest`.
pub proof fn law_layout_of_stop_vmm_request(value: StopVmmRequest, bytes: Seq<u8>, offset: int)
    ensures
        StopVmmRequest::spec_size() == 24,
        value.laid_out(bytes, offset) <==> {
            &&& value.header.abi_version == number(bytes, offset, 2)
            &&& value.header.struct_size == number(bytes, offset + 2, 2)
            &&& value.header.flags == number(bytes, offset + 4, 4)
            &&& value.header.request_id == number(bytes, offset + 8, 8)
            &&& value.header.session_nonce == number(bytes, offset + 16, 8)
        },
{
    law_numbers_have_their_lowest_byte_first(bytes, offset);
    law_numbers_have_their_lowest_byte_first(bytes, offset + 2);
    law_numbers_have_their_lowest_byte_first(bytes, offset + 4);
    law_numbers_have_their_lowest_byte_first(bytes, offset + 8);
    law_numbers_have_their_lowest_byte_first(bytes, offset + 16);
}

/// The bytes of one `StopVmmResponse`.
pub proof fn law_layout_of_stop_vmm_response(value: StopVmmResponse, bytes: Seq<u8>, offset: int)
    ensures
        StopVmmResponse::spec_size() == 48,
        value.laid_out(bytes, offset) <==> {
            &&& value.header.abi_version == number(bytes, offset, 2)
            &&& value.header.struct_size == number(bytes, offset + 2, 2)
            &&& value.header.flags == number(bytes, offset + 4, 4)
            &&& value.header.request_id == number(bytes, offset + 8, 8)
            &&& value.header.session_nonce == number(bytes, offset + 16, 8)
            &&& value.header.error.phase == number(bytes, offset + 24, 4)
            &&& value.header.error.code == number(bytes, offset + 28, 4)
            &&& value.header.error.cpu_dense_index == number(bytes, offset + 32, 2)
            &&& value.header.error.reserved == number(bytes, offset + 34, 2)
            &&& value.header.error.operation_index == number(bytes, offset + 36, 4)
            &&& value.header.error.detail == number(bytes, offset + 40, 8)
        },
{
    law_numbers_have_their_lowest_byte_first(bytes, offset);
    law_numbers_have_their_lowest_byte_first(bytes, offset + 2);
    law_numbers_have_their_lowest_byte_first(bytes, offset + 4);
    law_numbers_have_their_lowest_byte_first(bytes, offset + 8);
    law_numbers_have_their_lowest_byte_first(bytes, offset + 16);
    law_numbers_have_their_lowest_byte_first(bytes, offset + 24);
    law_numbers_have_their_lowest_byte_first(bytes, offset + 28);
    law_numbers_have_their_lowest_byte_first(bytes, offset + 32);
    law_numbers_have_their_lowest_byte_first(bytes, offset + 34);
    law_numbers_have_their_lowest_byte_first(bytes, offset + 36);
    law_numbers_have_their_lowest_byte_first(bytes, offset + 40);
}

/// The bytes of one `GetCapsResponse`.
pub proof fn law_layout_of_get_caps_response(value: GetCapsResponse, bytes: Seq<u8>, offset: int)
    ensures
        GetCapsResponse::spec_size() == 112,
        value.laid_out(bytes, offset) <==> {
            &&& value.header.abi_version == number(bytes, offset, 2)
            &&& value.header.struct_size == number(bytes, offset + 2, 2)
            &&& value.header.flags == number(bytes, offset + 4, 4)
            &&& value.header.request_id == number(bytes, offset + 8, 8)
            &&& value.header.session_nonce == number(bytes, offset + 16, 8)
            &&& value.header.error.phase == number(bytes, offset + 24, 4)
            &&& value.header.error.code == number(bytes, offset + 28, 4)
            &&& value.header.error.cpu_dense_index == number(bytes, offset + 32, 2)
            &&& value.header.error.reserved == number(bytes, offset + 34, 2)
            &&& value.header.error.operation_index == number(bytes, offset + 36, 4)
            &&& value.header.error.detail == number(bytes, offset + 40, 8)
            &&& value.driver_version == number(bytes, offset + 48, 4)
            &&& value.lifecycle == number(bytes, offset + 52, 4)
            &&& value.capability_bits == number(bytes, offset + 56, 8)
            &&& value.aperture_end == number(bytes, offset + 64, 8)
            &&& value.physaddr_width == bytes[offset + 72]
            &&& value.vbs_or_hypervisor_present == bytes[offset + 73]
            &&& value.session_available == bytes[offset + 74]
            &&& value.reserved0 == bytes[offset + 75]
            &&& value.cpu_count == number(bytes, offset + 76, 2)
            &&& value.max_views == number(bytes, offset + 78, 2)
            &&& value.max_drafts == number(bytes, offset + 80, 2)
            &&& value.max_batch_edits == number(bytes, offset + 82, 2)
            &&& value.reserved1 == number(bytes, offset + 84, 2)
            &&& value.reserved2 == number(bytes, offset + 86, 2)
            &&& value.max_backing_pages == number(bytes, offset + 88, 4)
            &&& value.reserved3 == number(bytes, offset + 92, 4)
            &&& value.reserved@[0] == number(bytes, offset + 96, 8)
            &&& value.reserved@[1] == number(bytes, offset + 104, 8)
        },
{
    law_numbers_have_their_lowest_byte_first(bytes, offset);
    law_numbers_have_their_lowest_byte_first(bytes, offset + 2);
    law_numbers_have_their_lowest_byte_first(bytes, offset + 4);
    law_numbers_have_their_lowest_byte_first(bytes, offset + 8);
    law_numbers_have_their_lowest_byte_first(bytes, offset + 16);
    law_numbers_have_their_lowest_byte_first(bytes, offset + 24);
    law_numbers_have_their_lowest_byte_first(bytes, offset + 28);
    law_numbers_have_their_lowest_byte_first(bytes, offset + 32);
    law_numbers_have_their_lowest_byte_first(bytes, offset + 34);
    law_numbers_have_their_lowest_byte_first(bytes, offset + 36);
    law_numbers_have_their_lowest_byte_first(bytes, offset + 40);
    law_numbers_have_their_lowest_byte_first(bytes, offset + 48);
    law_numbers_have_their_lowest_byte_first(bytes, offset + 52);
    law_numbers_have_their_lowest_byte_first(bytes, offset + 56);
    law_numbers_have_their_lowest_byte_first(bytes, offset + 64);
    law_numbers_have_their_lowest_byte_first(bytes, offset + 76);
    law_numbers_have_their_lowest_byte_first(bytes, offset + 78);
    law_numbers_have_their_lowest_byte_first(bytes, offset + 80);
    law_numbers_have_their_lowest_byte_first(bytes, offset + 82);
    law_numbers_have_their_lowest_byte_first(bytes, offset + 84);
    law_numbers_have_their_lowest_byte_first(bytes, offset + 86);
    law_numbers_have_their_lowest_byte_first(bytes, offset + 88);
    law_numbers_have_their_lowest_byte_first(bytes, offset + 92);
    law_numbers_have_their_lowest_byte_first(bytes, offset + 96);
    law_numbers_have_their_lowest_byte_first(bytes, offset + 104);
}

/// The bytes of one `StartVmmRequest`.
pub proof fn law_layout_of_start_vmm_request(value: StartVmmRequest, bytes: Seq<u8>, offset: int)
    ensures
        StartVmmRequest::spec_size() == 56,
        value.laid_out(bytes, offset) <==> {
            &&& value.header.abi_version == number(bytes, offset, 2)
            &&& value.header.struct_size == number(bytes, offset + 2, 2)
            &&& value.header.flags == number(bytes, offset + 4, 4)
            &&& value.header.request_id == number(bytes, offset + 8, 8)
            &&& value.header.session_nonce == number(bytes, offset + 16, 8)
            &&& value.aperture_limit == number(bytes, offset + 24, 8)
            &&& value.rendezvous_timeout_tsc == number(bytes, offset + 32, 8)
            &&& value.device_range_count == number(bytes, offset + 40, 4)
            &&& value.reserved0 == number(bytes, offset + 44, 4)
            &&& value.reserved1 == number(bytes, offset + 48, 8)
        },
{
    law_numbers_have_their_lowest_byte_first(bytes, offset);
    law_numbers_have_their_lowest_byte_first(bytes, offset + 2);
    law_numbers_have_their_lowest_byte_first(bytes, offset + 4);
    law_numbers_have_their_lowest_byte_first(bytes, offset + 8);
    law_numbers_have_their_lowest_byte_first(bytes, offset + 16);
    law_numbers_have_their_lowest_byte_first(bytes, offset + 24);
    law_numbers_have_their_lowest_byte_first(bytes, offset + 32);
    law_numbers_have_their_lowest_byte_first(bytes, offset + 40);
    law_numbers_have_their_lowest_byte_first(bytes, offset + 44);
    law_numbers_have_their_lowest_byte_first(bytes, offset + 48);
}

/// The bytes of one `DevicePhysicalRangeWire`.
pub proof fn law_layout_of_device_physical_range_wire(value: DevicePhysicalRangeWire, bytes: Seq<u8>, offset: int)
    ensures
        DevicePhysicalRangeWire::spec_size() == 24,
        value.laid_out(bytes, offset) <==> {
            &&& value.start == number(bytes, offset, 8)
            &&& value.length == number(bytes, offset + 8, 8)
            &&& value.reserved == number(bytes, offset + 16, 8)
        },
{
    law_numbers_have_their_lowest_byte_first(bytes, offset);
    law_numbers_have_their_lowest_byte_first(bytes, offset + 8);
    law_numbers_have_their_lowest_byte_first(bytes, offset + 16);
}

/// The bytes of one `StartVmmResponse`.
pub proof fn law_layout_of_start_vmm_response(value: StartVmmResponse, bytes: Seq<u8>, offset: int)
    ensures
        StartVmmResponse::spec_size() == 48,
        value.laid_out(bytes, offset) <==> {
            &&& value.header.abi_version == number(bytes, offset, 2)
            &&& value.header.struct_size == number(bytes, offset + 2, 2)
            &&& value.header.flags == number(bytes, offset + 4, 4)
            &&& value.header.request_id == number(bytes, offset + 8, 8)
            &&& value.header.session_nonce == number(bytes, offset + 16, 8)
            &&& value.header.error.phase == number(bytes, offset + 24, 4)
            &&& value.header.error.code == number(bytes, offset + 28, 4)
            &&& value.header.error.cpu_dense_index == number(bytes, offset + 32, 2)
            &&& value.header.error.reserved == number(bytes, offset + 34, 2)
            &&& value.header.error.operation_index == number(bytes, offset + 36, 4)
            &&& value.header.error.detail == number(bytes, offset + 40, 8)
        },
{
    law_numbers_have_their_lowest_byte_first(bytes, offset);
    law_numbers_have_their_lowest_byte_first(bytes, offset + 2);
    law_numbers_have_their_lowest_byte_first(bytes, offset + 4);
    law_numbers_have_their_lowest_byte_first(bytes, offset + 8);
    law_numbers_have_their_lowest_byte_first(bytes, offset + 16);
    law_numbers_have_their_lowest_byte_first(bytes, offset + 24);
    law_numbers_have_their_lowest_byte_first(bytes, offset + 28);
    law_numbers_have_their_lowest_byte_first(bytes, offset + 32);
    law_numbers_have_their_lowest_byte_first(bytes, offset + 34);
    law_numbers_have_their_lowest_byte_first(bytes, offset + 36);
    law_numbers_have_their_lowest_byte_first(bytes, offset + 40);
}

/// The bytes of one `AllocateBackingRequest`.
pub proof fn law_layout_of_allocate_backing_request(value: AllocateBackingRequest, bytes: Seq<u8>, offset: int)
    ensures
        AllocateBackingRequest::spec_size() == 40,
        value.laid_out(bytes, offset) <==> {
            &&& value.header.abi_version == number(bytes, offset, 2)
            &&& value.header.struct_size == number(bytes, offset + 2, 2)
            &&& value.header.flags == number(bytes, offset + 4, 4)
            &&& value.header.request_id == number(bytes, offset + 8, 8)
            &&& value.header.session_nonce == number(bytes, offset + 16, 8)
            &&& value.page_count == number(bytes, offset + 24, 4)
            &&& value.allocation_flags == number(bytes, offset + 28, 4)
            &&& value.reserved == number(bytes, offset + 32, 8)
        },
{
    law_numbers_have_their_lowest_byte_first(bytes, offset);
    law_numbers_have_their_lowest_byte_first(bytes, offset + 2);
    law_numbers_have_their_lowest_byte_first(bytes, offset + 4);
    law_numbers_have_their_lowest_byte_first(bytes, offset + 8);
    law_numbers_have_their_lowest_byte_first(bytes, offset + 16);
    law_numbers_have_their_lowest_byte_first(bytes, offset + 24);
    law_numbers_have_their_lowest_byte_first(bytes, offset + 28);
    law_numbers_have_their_lowest_byte_first(bytes, offset + 32);
}

/// The bytes of one `AllocateBackingResponse`.
pub proof fn law_layout_of_allocate_backing_response(value: AllocateBackingResponse, bytes: Seq<u8>, offset: int)
    ensures
        AllocateBackingResponse::spec_size() == 72,
        value.laid_out(bytes, offset) <==> {
            &&& value.header.abi_version == number(bytes, offset, 2)
            &&& value.header.struct_size == number(bytes, offset + 2, 2)
            &&& value.header.flags == number(bytes, offset + 4, 4)
            &&& value.header.request_id == number(bytes, offset + 8, 8)
            &&& value.header.session_nonce == number(bytes, offset + 16, 8)
            &&& value.header.error.phase == number(bytes, offset + 24, 4)
            &&& value.header.error.code == number(bytes, offset + 28, 4)
            &&& value.header.error.cpu_dense_index == number(bytes, offset + 32, 2)
            &&& value.header.error.reserved == number(bytes, offset + 34, 2)
            &&& value.header.error.operation_index == number(bytes, offset + 36, 4)
            &&& value.header.error.detail == number(bytes, offset + 40, 8)
            &&& value.backing.slot == number(bytes, offset + 48, 4)
            &&& value.backing.reserved == number(bytes, offset + 52, 4)
            &&& value.backing.generation == number(bytes, offset + 56, 8)
            &&& value.backing.session_nonce == number(bytes, offset + 64, 8)
        },
{
    law_numbers_have_their_lowest_byte_first(bytes, offset);
    law_numbers_have_their_lowest_byte_first(bytes, offset + 2);
    law_numbers_have_their_lowest_byte_first(bytes, offset + 4);
    law_numbers_have_their_lowest_byte_first(bytes, offset + 8);
    law_numbers_have_their_lowest_byte_first(bytes, offset + 16);
    law_numbers_have_their_lowest_byte_first(bytes, offset + 24);
    law_numbers_have_their_lowest_byte_first(bytes, offset + 28);
    law_numbers_have_their_lowest_byte_first(bytes, offset + 32);
    law_numbers_have_their_lowest_byte_first(bytes, offset + 34);
    law_numbers_have_their_lowest_byte_first(bytes, offset + 36);
    law_numbers_have_their_lowest_byte_first(bytes, offset + 40);
    law_numbers_have_their_lowest_byte_first(bytes, offset + 48);
    law_numbers_have_their_lowest_byte_first(bytes, offset + 52);
    law_numbers_have_their_lowest_byte_first(bytes, offset + 56);
    law_numbers_have_their_lowest_byte_first(bytes, offset + 64);
}

/// The bytes of one `WriteBackingRequest`.
pub proof fn law_layout_of_write_backing_request(value: WriteBackingRequest, bytes: Seq<u8>, offset: int)
    ensures
        WriteBackingRequest::spec_size() == 64,
        value.laid_out(bytes, offset) <==> {
            &&& value.header.abi_version == number(bytes, offset, 2)
            &&& value.header.struct_size == number(bytes, offset + 2, 2)
            &&& value.header.flags == number(bytes, offset + 4, 4)
            &&& value.header.request_id == number(bytes, offset + 8, 8)
            &&& value.header.session_nonce == number(bytes, offset + 16, 8)
            &&& value.backing.slot == number(bytes, offset + 24, 4)
            &&& value.backing.reserved == number(bytes, offset + 28, 4)
            &&& value.backing.generation == number(bytes, offset + 32, 8)
            &&& value.backing.session_nonce == number(bytes, offset + 40, 8)
            &&& value.offset == number(bytes, offset + 48, 8)
            &&& value.data_length == number(bytes, offset + 56, 4)
            &&& value.reserved == number(bytes, offset + 60, 4)
        },
{
    law_numbers_have_their_lowest_byte_first(bytes, offset);
    law_numbers_have_their_lowest_byte_first(bytes, offset + 2);
    law_numbers_have_their_lowest_byte_first(bytes, offset + 4);
    law_numbers_have_their_lowest_byte_first(bytes, offset + 8);
    law_numbers_have_their_lowest_byte_first(bytes, offset + 16);
    law_numbers_have_their_lowest_byte_first(bytes, offset + 24);
    law_numbers_have_their_lowest_byte_first(bytes, offset + 28);
    law_numbers_have_their_lowest_byte_first(bytes, offset + 32);
    law_numbers_have_their_lowest_byte_first(bytes, offset + 40);
    law_numbers_have_their_lowest_byte_first(bytes, offset + 48);
    law_numbers_have_their_lowest_byte_first(bytes, offset + 56);
    law_numbers_have_their_lowest_byte_first(bytes, offset + 60);
}

/// The bytes of one `WriteBackingResponse`.
pub proof fn law_layout_of_write_backing_response(value: WriteBackingResponse, bytes: Seq<u8>, offset: int)
    ensures
        WriteBackingResponse::spec_size() == 48,
        value.laid_out(bytes, offset) <==> {
            &&& value.header.abi_version == number(bytes, offset, 2)
            &&& value.header.struct_size == number(bytes, offset + 2, 2)
            &&& value.header.flags == number(bytes, offset + 4, 4)
            &&& value.header.request_id == number(bytes, offset + 8, 8)
            &&& value.header.session_nonce == number(bytes, offset + 16, 8)
            &&& value.header.error.phase == number(bytes, offset + 24, 4)
            &&& value.header.error.code == number(bytes, offset + 28, 4)
            &&& value.header.error.cpu_dense_index == number(bytes, offset + 32, 2)
            &&& value.header.error.reserved == number(bytes, offset + 34, 2)
            &&& value.header.error.operation_index == number(bytes, offset + 36, 4)
            &&& value.header.error.detail == number(bytes, offset + 40, 8)
        },
{
    law_numbers_have_their_lowest_byte_first(bytes, offset);
    law_numbers_have_their_lowest_byte_first(bytes, offset + 2);
    law_numbers_have_their_lowest_byte_first(bytes, offset + 4);
    law_numbers_have_their_lowest_byte_first(bytes, offset + 8);
    law_numbers_have_their_lowest_byte_first(bytes, offset + 16);
    law_numbers_have_their_lowest_byte_first(bytes, offset + 24);
    law_numbers_have_their_lowest_byte_first(bytes, offset + 28);
    law_numbers_have_their_lowest_byte_first(bytes, offset + 32);
    law_numbers_have_their_lowest_byte_first(bytes, offset + 34);
    law_numbers_have_their_lowest_byte_first(bytes, offset + 36);
    law_numbers_have_their_lowest_byte_first(bytes, offset + 40);
}

/// The bytes of one `FreeBackingRequest`.
pub proof fn law_layout_of_free_backing_request(value: FreeBackingRequest, bytes: Seq<u8>, offset: int)
    ensures
        FreeBackingRequest::spec_size() == 48,
        value.laid_out(bytes, offset) <==> {
            &&& value.header.abi_version == number(bytes, offset, 2)
            &&& value.header.struct_size == number(bytes, offset + 2, 2)
            &&& value.header.flags == number(bytes, offset + 4, 4)
            &&& value.header.request_id == number(bytes, offset + 8, 8)
            &&& value.header.session_nonce == number(bytes, offset + 16, 8)
            &&& value.backing.slot == number(bytes, offset + 24, 4)
            &&& value.backing.reserved == number(bytes, offset + 28, 4)
            &&& value.backing.generation == number(bytes, offset + 32, 8)
            &&& value.backing.session_nonce == number(bytes, offset + 40, 8)
        },
{
    law_numbers_have_their_lowest_byte_first(bytes, offset);
    law_numbers_have_their_lowest_byte_first(bytes, offset + 2);
    law_numbers_have_their_lowest_byte_first(bytes, offset + 4);
    law_numbers_have_their_lowest_byte_first(bytes, offset + 8);
    law_numbers_have_their_lowest_byte_first(bytes, offset + 16);
    law_numbers_have_their_lowest_byte_first(bytes, offset + 24);
    law_numbers_have_their_lowest_byte_first(bytes, offset + 28);
    law_numbers_have_their_lowest_byte_first(bytes, offset + 32);
    law_numbers_have_their_lowest_byte_first(bytes, offset + 40);
}

/// The bytes of one `FreeBackingResponse`.
pub proof fn law_layout_of_free_backing_response(value: FreeBackingResponse, bytes: Seq<u8>, offset: int)
    ensures
        FreeBackingResponse::spec_size() == 48,
        value.laid_out(bytes, offset) <==> {
            &&& value.header.abi_version == number(bytes, offset, 2)
            &&& value.header.struct_size == number(bytes, offset + 2, 2)
            &&& value.header.flags == number(bytes, offset + 4, 4)
            &&& value.header.request_id == number(bytes, offset + 8, 8)
            &&& value.header.session_nonce == number(bytes, offset + 16, 8)
            &&& value.header.error.phase == number(bytes, offset + 24, 4)
            &&& value.header.error.code == number(bytes, offset + 28, 4)
            &&& value.header.error.cpu_dense_index == number(bytes, offset + 32, 2)
            &&& value.header.error.reserved == number(bytes, offset + 34, 2)
            &&& value.header.error.operation_index == number(bytes, offset + 36, 4)
            &&& value.header.error.detail == number(bytes, offset + 40, 8)
        },
{
    law_numbers_have_their_lowest_byte_first(bytes, offset);
    law_numbers_have_their_lowest_byte_first(bytes, offset + 2);
    law_numbers_have_their_lowest_byte_first(bytes, offset + 4);
    law_numbers_have_their_lowest_byte_first(bytes, offset + 8);
    law_numbers_have_their_lowest_byte_first(bytes, offset + 16);
    law_numbers_have_their_lowest_byte_first(bytes, offset + 24);
    law_numbers_have_their_lowest_byte_first(bytes, offset + 28);
    law_numbers_have_their_lowest_byte_first(bytes, offset + 32);
    law_numbers_have_their_lowest_byte_first(bytes, offset + 34);
    law_numbers_have_their_lowest_byte_first(bytes, offset + 36);
    law_numbers_have_their_lowest_byte_first(bytes, offset + 40);
}

/// The bytes of one `CreateDraftRequest`.
pub proof fn law_layout_of_create_draft_request(value: CreateDraftRequest, bytes: Seq<u8>, offset: int)
    ensures
        CreateDraftRequest::spec_size() == 48,
        value.laid_out(bytes, offset) <==> {
            &&& value.header.abi_version == number(bytes, offset, 2)
            &&& value.header.struct_size == number(bytes, offset + 2, 2)
            &&& value.header.flags == number(bytes, offset + 4, 4)
            &&& value.header.request_id == number(bytes, offset + 8, 8)
            &&& value.header.session_nonce == number(bytes, offset + 16, 8)
            &&& value.source.slot == number(bytes, offset + 24, 2)
            &&& value.source.reserved == number(bytes, offset + 26, 2)
            &&& value.source.reserved1 == number(bytes, offset + 28, 4)
            &&& value.source.generation == number(bytes, offset + 32, 8)
            &&& value.reserved == number(bytes, offset + 40, 4)
            &&& value.reserved1 == number(bytes, offset + 44, 4)
        },
{
    law_numbers_have_their_lowest_byte_first(bytes, offset);
    law_numbers_have_their_lowest_byte_first(bytes, offset + 2);
    law_numbers_have_their_lowest_byte_first(bytes, offset + 4);
    law_numbers_have_their_lowest_byte_first(bytes, offset + 8);
    law_numbers_have_their_lowest_byte_first(bytes, offset + 16);
    law_numbers_have_their_lowest_byte_first(bytes, offset + 24);
    law_numbers_have_their_lowest_byte_first(bytes, offset + 26);
    law_numbers_have_their_lowest_byte_first(bytes, offset + 28);
    law_numbers_have_their_lowest_byte_first(bytes, offset + 32);
    law_numbers_have_their_lowest_byte_first(bytes, offset + 40);
    law_numbers_have_their_lowest_byte_first(bytes, offset + 44);
}

/// The bytes of one `CreateDraftResponse`.
pub proof fn law_layout_of_create_draft_response(value: CreateDraftResponse, bytes: Seq<u8>, offset: int)
    ensures
        CreateDraftResponse::spec_size() == 72,
        value.laid_out(bytes, offset) <==> {
            &&& value.header.abi_version == number(bytes, offset, 2)
            &&& value.header.struct_size == number(bytes, offset + 2, 2)
            &&& value.header.flags == number(bytes, offset + 4, 4)
            &&& value.header.request_id == number(bytes, offset + 8, 8)
            &&& value.header.session_nonce == number(bytes, offset + 16, 8)
            &&& value.header.error.phase == number(bytes, offset + 24, 4)
            &&& value.header.error.code == number(bytes, offset + 28, 4)
            &&& value.header.error.cpu_dense_index == number(bytes, offset + 32, 2)
            &&& value.header.error.reserved == number(bytes, offset + 34, 2)
            &&& value.header.error.operation_index == number(bytes, offset + 36, 4)
            &&& value.header.error.detail == number(bytes, offset + 40, 8)
            &&& value.draft.slot == number(bytes, offset + 48, 2)
            &&& value.draft.reserved == number(bytes, offset + 50, 2)
            &&& value.draft.reserved1 == number(bytes, offset + 52, 4)
            &&& value.draft.generation == number(bytes, offset + 56, 8)
            &&& value.draft.session_nonce == number(bytes, offset + 64, 8)
        },
{
    law_numbers_have_their_lowest_byte_first(bytes, offset);
    law_numbers_have_their_lowest_byte_first(bytes, offset + 2);
    law_numbers_have_their_lowest_byte_first(bytes, offset + 4);
    law_numbers_have_their_lowest_byte_first(bytes, offset + 8);
    law_numbers_have_their_lowest_byte_first(bytes, offset + 16);
    law_numbers_have_their_lowest_byte_first(bytes, offset + 24);
    law_numbers_have_their_lowest_byte_first(bytes, offset + 28);
    law_numbers_have_their_lowest_byte_first(bytes, offset + 32);
    law_numbers_have_their_lowest_byte_first(bytes, offset + 34);
    law_numbers_have_their_lowest_byte_first(bytes, offset + 36);
    law_numbers_have_their_lowest_byte_first(bytes, offset + 40);
    law_numbers_have_their_lowest_byte_first(bytes, offset + 48);
    law_numbers_have_their_lowest_byte_first(bytes, offset + 50);
    law_numbers_have_their_lowest_byte_first(bytes, offset + 52);
    law_numbers_have_their_lowest_byte_first(bytes, offset + 56);
    law_numbers_have_their_lowest_byte_first(bytes, offset + 64);
}

/// The bytes of one `EditWire`.
pub proof fn law_layout_of_edit_wire(value: EditWire, bytes: Seq<u8>, offset: int)
    ensures
        EditWire::spec_size() == 64,
        value.laid_out(bytes, offset) <==> {
            &&& value.kind == number(bytes, offset, 4)
            &&& value.flags == number(bytes, offset + 4, 4)
            &&& value.gpa == number(bytes, offset + 8, 8)
            &&& value.length == number(bytes, offset + 16, 8)
            &&& value.backing.slot == number(bytes, offset + 24, 4)
            &&& value.backing.reserved == number(bytes, offset + 28, 4)
            &&& value.backing.generation == number(bytes, offset + 32, 8)
            &&& value.backing.session_nonce == number(bytes, offset + 40, 8)
            &&& value.backing_page == number(bytes, offset + 48, 4)
            &&& value.permissions == bytes[offset + 52]
            &&& value.memory_type == bytes[offset + 53]
            &&& value.reserved0 == number(bytes, offset + 54, 2)
            &&& value.reserved == number(bytes, offset + 56, 8)
        },
{
    law_numbers_have_their_lowest_byte_first(bytes, offset);
    law_numbers_have_their_lowest_byte_first(bytes, offset + 4);
    law_numbers_have_their_lowest_byte_first(bytes, offset + 8);
    law_numbers_have_their_lowest_byte_first(bytes, offset + 16);
    law_numbers_have_their_lowest_byte_first(bytes, offset + 24);
    law_numbers_have_their_lowest_byte_first(bytes, offset + 28);
    law_numbers_have_their_lowest_byte_first(bytes, offset + 32);
    law_numbers_have_their_lowest_byte_first(bytes, offset + 40);
    law_numbers_have_their_lowest_byte_first(bytes, offset + 48);
    law_numbers_have_their_lowest_byte_first(bytes, offset + 54);
    law_numbers_have_their_lowest_byte_first(bytes, offset + 56);
}

/// The bytes of one `ApplyEditBatchRequest`.
pub proof fn law_layout_of_apply_edit_batch_request(value: ApplyEditBatchRequest, bytes: Seq<u8>, offset: int)
    ensures
        ApplyEditBatchRequest::spec_size() == 56,
        value.laid_out(bytes, offset) <==> {
            &&& value.header.abi_version == number(bytes, offset, 2)
            &&& value.header.struct_size == number(bytes, offset + 2, 2)
            &&& value.header.flags == number(bytes, offset + 4, 4)
            &&& value.header.request_id == number(bytes, offset + 8, 8)
            &&& value.header.session_nonce == number(bytes, offset + 16, 8)
            &&& value.draft.slot == number(bytes, offset + 24, 2)
            &&& value.draft.reserved == number(bytes, offset + 26, 2)
            &&& value.draft.reserved1 == number(bytes, offset + 28, 4)
            &&& value.draft.generation == number(bytes, offset + 32, 8)
            &&& value.draft.session_nonce == number(bytes, offset + 40, 8)
            &&& value.edit_count == number(bytes, offset + 48, 4)
            &&& value.reserved == number(bytes, offset + 52, 4)
        },
{
    law_numbers_have_their_lowest_byte_first(bytes, offset);
    law_numbers_have_their_lowest_byte_first(bytes, offset + 2);
    law_numbers_have_their_lowest_byte_first(bytes, offset + 4);
    law_numbers_have_their_lowest_byte_first(bytes, offset + 8);
    law_numbers_have_their_lowest_byte_first(bytes, offset + 16);
    law_numbers_have_their_lowest_byte_first(bytes, offset + 24);
    law_numbers_have_their_lowest_byte_first(bytes, offset + 26);
    law_numbers_have_their_lowest_byte_first(bytes, offset + 28);
    law_numbers_have_their_lowest_byte_first(bytes, offset + 32);
    law_numbers_have_their_lowest_byte_first(bytes, offset + 40);
    law_numbers_have_their_lowest_byte_first(bytes, offset + 48);
    law_numbers_have_their_lowest_byte_first(bytes, offset + 52);
}

/// The bytes of one `ApplyEditBatchResponse`.
pub proof fn law_layout_of_apply_edit_batch_response(value: ApplyEditBatchResponse, bytes: Seq<u8>, offset: int)
    ensures
        ApplyEditBatchResponse::spec_size() == 48,
        value.laid_out(bytes, offset) <==> {
            &&& value.header.abi_version == number(bytes, offset, 2)
            &&& value.header.struct_size == number(bytes, offset + 2, 2)
            &&& value.header.flags == number(bytes, offset + 4, 4)
            &&& value.header.request_id == number(bytes, offset + 8, 8)
            &&& value.header.session_nonce == number(bytes, offset + 16, 8)
            &&& value.header.error.phase == number(bytes, offset + 24, 4)
            &&& value.header.error.code == number(bytes, offset + 28, 4)
            &&& value.header.error.cpu_dense_index == number(bytes, offset + 32, 2)
            &&& value.header.error.reserved == number(bytes, offset + 34, 2)
            &&& value.header.error.operation_index == number(bytes, offset + 36, 4)
            &&& value.header.error.detail == number(bytes, offset + 40, 8)
        },
{
    law_numbers_have_their_lowest_byte_first(bytes, offset);
    law_numbers_have_their_lowest_byte_first(bytes, offset + 2);
    law_numbers_have_their_lowest_byte_first(bytes, offset + 4);
    law_numbers_have_their_lowest_byte_first(bytes, offset + 8);
    law_numbers_have_their_lowest_byte_first(bytes, offset + 16);
    law_numbers_have_their_lowest_byte_first(bytes, offset + 24);
    law_numbers_have_their_lowest_byte_first(bytes, offset + 28);
    law_numbers_have_their_lowest_byte_first(bytes, offset + 32);
    law_numbers_have_their_lowest_byte_first(bytes, offset + 34);
    law_numbers_have_their_lowest_byte_first(bytes, offset + 36);
    law_numbers_have_their_lowest_byte_first(bytes, offset + 40);
}

/// The bytes of one `DiscardDraftRequest`.
pub proof fn law_layout_of_discard_draft_request(value: DiscardDraftRequest, bytes: Seq<u8>, offset: int)
    ensures
        DiscardDraftRequest::spec_size() == 48,
        value.laid_out(bytes, offset) <==> {
            &&& value.header.abi_version == number(bytes, offset, 2)
            &&& value.header.struct_size == number(bytes, offset + 2, 2)
            &&& value.header.flags == number(bytes, offset + 4, 4)
            &&& value.header.request_id == number(bytes, offset + 8, 8)
            &&& value.header.session_nonce == number(bytes, offset + 16, 8)
            &&& value.draft.slot == number(bytes, offset + 24, 2)
            &&& value.draft.reserved == number(bytes, offset + 26, 2)
            &&& value.draft.reserved1 == number(bytes, offset + 28, 4)
            &&& value.draft.generation == number(bytes, offset + 32, 8)
            &&& value.draft.session_nonce == number(bytes, offset + 40, 8)
        },
{
    law_numbers_have_their_lowest_byte_first(bytes, offset);
    law_numbers_have_their_lowest_byte_first(bytes, offset + 2);
    law_numbers_have_their_lowest_byte_first(bytes, offset + 4);
    law_numbers_have_their_lowest_byte_first(bytes, offset + 8);
    law_numbers_have_their_lowest_byte_first(bytes, offset + 16);
    law_numbers_have_their_lowest_byte_first(bytes, offset + 24);
    law_numbers_have_their_lowest_byte_first(bytes, offset + 26);
    law_numbers_have_their_lowest_byte_first(bytes, offset + 28);
    law_numbers_have_their_lowest_byte_first(bytes, offset + 32);
    law_numbers_have_their_lowest_byte_first(bytes, offset + 40);
}

/// The bytes of one `DiscardDraftResponse`.
pub proof fn law_layout_of_discard_draft_response(value: DiscardDraftResponse, bytes: Seq<u8>, offset: int)
    ensures
        DiscardDraftResponse::spec_size() == 48,
        value.laid_out(bytes, offset) <==> {
            &&& value.header.abi_version == number(bytes, offset, 2)
            &&& value.header.struct_size == number(bytes, offset + 2, 2)
            &&& value.header.flags == number(bytes, offset + 4, 4)
            &&& value.header.request_id == number(bytes, offset + 8, 8)
            &&& value.header.session_nonce == number(bytes, offset + 16, 8)
            &&& value.header.error.phase == number(bytes, offset + 24, 4)
            &&& value.header.error.code == number(bytes, offset + 28, 4)
            &&& value.header.error.cpu_dense_index == number(bytes, offset + 32, 2)
            &&& value.header.error.reserved == number(bytes, offset + 34, 2)
            &&& value.header.error.operation_index == number(bytes, offset + 36, 4)
            &&& value.header.error.detail == number(bytes, offset + 40, 8)
        },
{
    law_numbers_have_their_lowest_byte_first(bytes, offset);
    law_numbers_have_their_lowest_byte_first(bytes, offset + 2);
    law_numbers_have_their_lowest_byte_first(bytes, offset + 4);
    law_numbers_have_their_lowest_byte_first(bytes, offset + 8);
    law_numbers_have_their_lowest_byte_first(bytes, offset + 16);
    law_numbers_have_their_lowest_byte_first(bytes, offset + 24);
    law_numbers_have_their_lowest_byte_first(bytes, offset + 28);
    law_numbers_have_their_lowest_byte_first(bytes, offset + 32);
    law_numbers_have_their_lowest_byte_first(bytes, offset + 34);
    law_numbers_have_their_lowest_byte_first(bytes, offset + 36);
    law_numbers_have_their_lowest_byte_first(bytes, offset + 40);
}

/// The bytes of one `PublishViewRequest`.
pub proof fn law_layout_of_publish_view_request(value: PublishViewRequest, bytes: Seq<u8>, offset: int)
    ensures
        PublishViewRequest::spec_size() == 48,
        value.laid_out(bytes, offset) <==> {
            &&& value.header.abi_version == number(bytes, offset, 2)
            &&& value.header.struct_size == number(bytes, offset + 2, 2)
            &&& value.header.flags == number(bytes, offset + 4, 4)
            &&& value.header.request_id == number(bytes, offset + 8, 8)
            &&& value.header.session_nonce == number(bytes, offset + 16, 8)
            &&& value.draft.slot == number(bytes, offset + 24, 2)
            &&& value.draft.reserved == number(bytes, offset + 26, 2)
            &&& value.draft.reserved1 == number(bytes, offset + 28, 4)
            &&& value.draft.generation == number(bytes, offset + 32, 8)
            &&& value.draft.session_nonce == number(bytes, offset + 40, 8)
        },
{
    law_numbers_have_their_lowest_byte_first(bytes, offset);
    law_numbers_have_their_lowest_byte_first(bytes, offset + 2);
    law_numbers_have_their_lowest_byte_first(bytes, offset + 4);
    law_numbers_have_their_lowest_byte_first(bytes, offset + 8);
    law_numbers_have_their_lowest_byte_first(bytes, offset + 16);
    law_numbers_have_their_lowest_byte_first(bytes, offset + 24);
    law_numbers_have_their_lowest_byte_first(bytes, offset + 26);
    law_numbers_have_their_lowest_byte_first(bytes, offset + 28);
    law_numbers_have_their_lowest_byte_first(bytes, offset + 32);
    law_numbers_have_their_lowest_byte_first(bytes, offset + 40);
}

/// The bytes of one `PublishViewResponse`.
pub proof fn law_layout_of_publish_view_response(value: PublishViewResponse, bytes: Seq<u8>, offset: int)
    ensures
        PublishViewResponse::spec_size() == 72,
        value.laid_out(bytes, offset) <==> {
            &&& value.header.abi_version == number(bytes, offset, 2)
            &&& value.header.struct_size == number(bytes, offset + 2, 2)
            &&& value.header.flags == number(bytes, offset + 4, 4)
            &&& value.header.request_id == number(bytes, offset + 8, 8)
            &&& value.header.session_nonce == number(bytes, offset + 16, 8)
            &&& value.header.error.phase == number(bytes, offset + 24, 4)
            &&& value.header.error.code == number(bytes, offset + 28, 4)
            &&& value.header.error.cpu_dense_index == number(bytes, offset + 32, 2)
            &&& value.header.error.reserved == number(bytes, offset + 34, 2)
            &&& value.header.error.operation_index == number(bytes, offset + 36, 4)
            &&& value.header.error.detail == number(bytes, offset + 40, 8)
            &&& value.view.slot == number(bytes, offset + 48, 2)
            &&& value.view.reserved == number(bytes, offset + 50, 2)
            &&& value.view.reserved1 == number(bytes, offset + 52, 4)
            &&& value.view.generation == number(bytes, offset + 56, 8)
            &&& value.reserved == number(bytes, offset + 64, 4)
            &&& value.reserved1 == number(bytes, offset + 68, 4)
        },
{
    law_numbers_have_their_lowest_byte_first(bytes, offset);
    law_numbers_have_their_lowest_byte_first(bytes, offset + 2);
    law_numbers_have_their_lowest_byte_first(bytes, offset + 4);
    law_numbers_have_their_lowest_byte_first(bytes, offset + 8);
    law_numbers_have_their_lowest_byte_first(bytes, offset + 16);
    law_numbers_have_their_lowest_byte_first(bytes, offset + 24);
    law_numbers_have_their_lowest_byte_first(bytes, offset + 28);
    law_numbers_have_their_lowest_byte_first(bytes, offset + 32);
    law_numbers_have_their_lowest_byte_first(bytes, offset + 34);
    law_numbers_have_their_lowest_byte_first(bytes, offset + 36);
    law_numbers_have_their_lowest_byte_first(bytes, offset + 40);
    law_numbers_have_their_lowest_byte_first(bytes, offset + 48);
    law_numbers_have_their_lowest_byte_first(bytes, offset + 50);
    law_numbers_have_their_lowest_byte_first(bytes, offset + 52);
    law_numbers_have_their_lowest_byte_first(bytes, offset + 56);
    law_numbers_have_their_lowest_byte_first(bytes, offset + 64);
    law_numbers_have_their_lowest_byte_first(bytes, offset + 68);
}

/// The bytes of one `QueryMappingRequest`.
pub proof fn law_layout_of_query_mapping_request(value: QueryMappingRequest, bytes: Seq<u8>, offset: int)
    ensures
        QueryMappingRequest::spec_size() == 80,
        value.laid_out(bytes, offset) <==> {
            &&& value.header.abi_version == number(bytes, offset, 2)
            &&& value.header.struct_size == number(bytes, offset + 2, 2)
            &&& value.header.flags == number(bytes, offset + 4, 4)
            &&& value.header.request_id == number(bytes, offset + 8, 8)
            &&& value.header.session_nonce == number(bytes, offset + 16, 8)
            &&& value.object_kind == number(bytes, offset + 24, 4)
            &&& value.reserved0 == number(bytes, offset + 28, 4)
            &&& value.view.slot == number(bytes, offset + 32, 2)
            &&& value.view.reserved == number(bytes, offset + 34, 2)
            &&& value.view.reserved1 == number(bytes, offset + 36, 4)
            &&& value.view.generation == number(bytes, offset + 40, 8)
            &&& value.draft.slot == number(bytes, offset + 48, 2)
            &&& value.draft.reserved == number(bytes, offset + 50, 2)
            &&& value.draft.reserved1 == number(bytes, offset + 52, 4)
            &&& value.draft.generation == number(bytes, offset + 56, 8)
            &&& value.draft.session_nonce == number(bytes, offset + 64, 8)
            &&& value.gpa == number(bytes, offset + 72, 8)
        },
{
    law_numbers_have_their_lowest_byte_first(bytes, offset);
    law_numbers_have_their_lowest_byte_first(bytes, offset + 2);
    law_numbers_have_their_lowest_byte_first(bytes, offset + 4);
    law_numbers_have_their_lowest_byte_first(bytes, offset + 8);
    law_numbers_have_their_lowest_byte_first(bytes, offset + 16);
    law_numbers_have_their_lowest_byte_first(bytes, offset + 24);
    law_numbers_have_their_lowest_byte_first(bytes, offset + 28);
    law_numbers_have_their_lowest_byte_first(bytes, offset + 32);
    law_numbers_have_their_lowest_byte_first(bytes, offset + 34);
    law_numbers_have_their_lowest_byte_first(bytes, offset + 36);
    law_numbers_have_their_lowest_byte_first(bytes, offset + 40);
    law_numbers_have_their_lowest_byte_first(bytes, offset + 48);
    law_numbers_have_their_lowest_byte_first(bytes, offset + 50);
    law_numbers_have_their_lowest_byte_first(bytes, offset + 52);
    law_numbers_have_their_lowest_byte_first(bytes, offset + 56);
    law_numbers_have_their_lowest_byte_first(bytes, offset + 64);
    law_numbers_have_their_lowest_byte_first(bytes, offset + 72);
}

/// The bytes of one `QueryMappingResponse`.
pub proof fn law_layout_of_query_mapping_response(value: QueryMappingResponse, bytes: Seq<u8>, offset: int)
    ensures
        QueryMappingResponse::spec_size() == 104,
        value.laid_out(bytes, offset) <==> {
            &&& value.header.abi_version == number(bytes, offset, 2)
            &&& value.header.struct_size == number(bytes, offset + 2, 2)
            &&& value.header.flags == number(bytes, offset + 4, 4)
            &&& value.header.request_id == number(bytes, offset + 8, 8)
            &&& value.header.session_nonce == number(bytes, offset + 16, 8)
            &&& value.header.error.phase == number(bytes, offset + 24, 4)
            &&& value.header.error.code == number(bytes, offset + 28, 4)
            &&& value.header.error.cpu_dense_index == number(bytes, offset + 32, 2)
            &&& value.header.error.reserved == number(bytes, offset + 34, 2)
            &&& value.header.error.operation_index == number(bytes, offset + 36, 4)
            &&& value.header.error.detail == number(bytes, offset + 40, 8)
            &&& value.mapped == bytes[offset + 48]
            &&& value.permissions == bytes[offset + 49]
            &&& value.memory_type == bytes[offset + 50]
            &&& value.leaf_size_log2 == bytes[offset + 51]
            &&& value.source_kind == number(bytes, offset + 52, 4)
            &&& value.source_backing.slot == number(bytes, offset + 56, 4)
            &&& value.source_backing.reserved == number(bytes, offset + 60, 4)
            &&& value.source_backing.generation == number(bytes, offset + 64, 8)
            &&& value.source_backing.session_nonce == number(bytes, offset + 72, 8)
            &&& value.page_offset == number(bytes, offset + 80, 8)
            &&& value.reserved@[0] == number(bytes, offset + 88, 8)
            &&& value.reserved@[1] == number(bytes, offset + 96, 8)
        },
{
    law_numbers_have_their_lowest_byte_first(bytes, offset);
    law_numbers_have_their_lowest_byte_first(bytes, offset + 2);
    law_numbers_have_their_lowest_byte_first(bytes, offset + 4);
    law_numbers_have_their_lowest_byte_first(bytes, offset + 8);
    law_numbers_have_their_lowest_byte_first(bytes, offset + 16);
    law_numbers_have_their_lowest_byte_first(bytes, offset + 24);
    law_numbers_have_their_lowest_byte_first(bytes, offset + 28);
    law_numbers_have_their_lowest_byte_first(bytes, offset + 32);
    law_numbers_have_their_lowest_byte_first(bytes, offset + 34);
    law_numbers_have_their_lowest_byte_first(bytes, offset + 36);
    law_numbers_have_their_lowest_byte_first(bytes, offset + 40);
    law_numbers_have_their_lowest_byte_first(bytes, offset + 52);
    law_numbers_have_their_lowest_byte_first(bytes, offset + 56);
    law_numbers_have_their_lowest_byte_first(bytes, offset + 60);
    law_numbers_have_their_lowest_byte_first(bytes, offset + 64);
    law_numbers_have_their_lowest_byte_first(bytes, offset + 72);
    law_numbers_have_their_lowest_byte_first(bytes, offset + 80);
    law_numbers_have_their_lowest_byte_first(bytes, offset + 88);
    law_numbers_have_their_lowest_byte_first(bytes, offset + 96);
}

/// The bytes of one `ListViewsRequest`.
pub proof fn law_layout_of_list_views_request(value: ListViewsRequest, bytes: Seq<u8>, offset: int)
    ensures
        ListViewsRequest::spec_size() == 32,
        value.laid_out(bytes, offset) <==> {
            &&& value.header.abi_version == number(bytes, offset, 2)
            &&& value.header.struct_size == number(bytes, offset + 2, 2)
            &&& value.header.flags == number(bytes, offset + 4, 4)
            &&& value.header.request_id == number(bytes, offset + 8, 8)
            &&& value.header.session_nonce == number(bytes, offset + 16, 8)
            &&& value.start_index == number(bytes, offset + 24, 4)
            &&& value.max_records == number(bytes, offset + 28, 4)
        },
{
    law_numbers_have_their_lowest_byte_first(bytes, offset);
    law_numbers_have_their_lowest_byte_first(bytes, offset + 2);
    law_numbers_have_their_lowest_byte_first(bytes, offset + 4);
    law_numbers_have_their_lowest_byte_first(bytes, offset + 8);
    law_numbers_have_their_lowest_byte_first(bytes, offset + 16);
    law_numbers_have_their_lowest_byte_first(bytes, offset + 24);
    law_numbers_have_their_lowest_byte_first(bytes, offset + 28);
}

/// The bytes of one `ViewRecordWire`.
pub proof fn law_layout_of_view_record_wire(value: ViewRecordWire, bytes: Seq<u8>, offset: int)
    ensures
        ViewRecordWire::spec_size() == 112,
        value.laid_out(bytes, offset) <==> {
            &&& value.id.slot == number(bytes, offset, 2)
            &&& value.id.reserved == number(bytes, offset + 2, 2)
            &&& value.id.reserved1 == number(bytes, offset + 4, 4)
            &&& value.id.generation == number(bytes, offset + 8, 8)
            &&& value.source.slot == number(bytes, offset + 16, 2)
            &&& value.source.reserved == number(bytes, offset + 18, 2)
            &&& value.source.reserved1 == number(bytes, offset + 20, 4)
            &&& value.source.generation == number(bytes, offset + 24, 8)
            &&& value.state == number(bytes, offset + 32, 4)
            &&& value.table_pages == number(bytes, offset + 36, 4)
            &&& value.leaf_count == number(bytes, offset + 40, 8)
            &&& value.readable_pages == number(bytes, offset + 48, 8)
            &&& value.writable_pages == number(bytes, offset + 56, 8)
            &&& value.executable_pages == number(bytes, offset + 64, 8)
            &&& value.backing_ref_count == number(bytes, offset + 72, 4)
            &&& value.cpu_word_count == number(bytes, offset + 76, 4)
            &&& value.active_cpu_set@[0] == number(bytes, offset + 80, 8)
            &&& value.active_cpu_set@[1] == number(bytes, offset + 88, 8)
            &&& value.active_cpu_set@[2] == number(bytes, offset + 96, 8)
            &&& value.active_cpu_set@[3] == number(bytes, offset + 104, 8)
        },
{
    law_numbers_have_their_lowest_byte_first(bytes, offset);
    law_numbers_have_their_lowest_byte_first(bytes, offset + 2);
    law_numbers_have_their_lowest_byte_first(bytes, offset + 4);
    law_numbers_have_their_lowest_byte_first(bytes, offset + 8);
    law_numbers_have_their_lowest_byte_first(bytes, offset + 16);
    law_numbers_have_their_lowest_byte_first(bytes, offset + 18);
    law_numbers_have_their_lowest_byte_first(bytes, offset + 20);
    law_numbers_have_their_lowest_byte_first(bytes, offset + 24);
    law_numbers_have_their_lowest_byte_first(bytes, offset + 32);
    law_numbers_have_their_lowest_byte_first(bytes, offset + 36);
    law_numbers_have_their_lowest_byte_first(bytes, offset + 40);
    law_numbers_have_their_lowest_byte_first(bytes, offset + 48);
    law_numbers_have_their_lowest_byte_first(bytes, offset + 56);
    law_numbers_have_their_lowest_byte_first(bytes, offset + 64);
    law_numbers_have_their_lowest_byte_first(bytes, offset + 72);
    law_numbers_have_their_lowest_byte_first(bytes, offset + 76);
    law_numbers_have_their_lowest_byte_first(bytes, offset + 80);
    law_numbers_have_their_lowest_byte_first(bytes, offset + 88);
    law_numbers_have_their_lowest_byte_first(bytes, offset + 96);
    law_numbers_have_their_lowest_byte_first(bytes, offset + 104);
}

/// The bytes of one `ListViewsResponse`.
pub proof fn law_layout_of_list_views_response(value: ListViewsResponse, bytes: Seq<u8>, offset: int)
    ensures
        ListViewsResponse::spec_size() == 56,
        value.laid_out(bytes, offset) <==> {
            &&& value.header.abi_version == number(bytes, offset, 2)
            &&& value.header.struct_size == number(bytes, offset + 2, 2)
            &&& value.header.flags == number(bytes, offset + 4, 4)
            &&& value.header.request_id == number(bytes, offset + 8, 8)
            &&& value.header.session_nonce == number(bytes, offset + 16, 8)
            &&& value.header.error.phase == number(bytes, offset + 24, 4)
            &&& value.header.error.code == number(bytes, offset + 28, 4)
            &&& value.header.error.cpu_dense_index == number(bytes, offset + 32, 2)
            &&& value.header.error.reserved == number(bytes, offset + 34, 2)
            &&& value.header.error.operation_index == number(bytes, offset + 36, 4)
            &&& value.header.error.detail == number(bytes, offset + 40, 8)
            &&& value.record_count == number(bytes, offset + 48, 4)
            &&& value.total_count == number(bytes, offset + 52, 4)
        },
{
    law_numbers_have_their_lowest_byte_first(bytes, offset);
    law_numbers_have_their_lowest_byte_first(bytes, offset + 2);
    law_numbers_have_their_lowest_byte_first(bytes, offset + 4);
    law_numbers_have_their_lowest_byte_first(bytes, offset + 8);
    law_numbers_have_their_lowest_byte_first(bytes, offset + 16);
    law_numbers_have_their_lowest_byte_first(bytes, offset + 24);
    law_numbers_have_their_lowest_byte_first(bytes, offset + 28);
    law_numbers_have_their_lowest_byte_first(bytes, offset + 32);
    law_numbers_have_their_lowest_byte_first(bytes, offset + 34);
    law_numbers_have_their_lowest_byte_first(bytes, offset + 36);
    law_numbers_have_their_lowest_byte_first(bytes, offset + 40);
    law_numbers_have_their_lowest_byte_first(bytes, offset + 48);
    law_numbers_have_their_lowest_byte_first(bytes, offset + 52);
}

/// The bytes of one `ActivateViewRequest`.
pub proof fn law_layout_of_activate_view_request(value: ActivateViewRequest, bytes: Seq<u8>, offset: int)
    ensures
        ActivateViewRequest::spec_size() == 48,
        value.laid_out(bytes, offset) <==> {
            &&& value.header.abi_version == number(bytes, offset, 2)
            &&& value.header.struct_size == number(bytes, offset + 2, 2)
            &&& value.header.flags == number(bytes, offset + 4, 4)
            &&& value.header.request_id == number(bytes, offset + 8, 8)
            &&& value.header.session_nonce == number(bytes, offset + 16, 8)
            &&& value.view.slot == number(bytes, offset + 24, 2)
            &&& value.view.reserved == number(bytes, offset + 26, 2)
            &&& value.view.reserved1 == number(bytes, offset + 28, 4)
            &&& value.view.generation == number(bytes, offset + 32, 8)
            &&& value.cpu_word_count == number(bytes, offset + 40, 4)
            &&& value.reserved == number(bytes, offset + 44, 4)
        },
{
    law_numbers_have_their_lowest_byte_first(bytes, offset);
    law_numbers_have_their_lowest_byte_first(bytes, offset + 2);
    law_numbers_have_their_lowest_byte_first(bytes, offset + 4);
    law_numbers_have_their_lowest_byte_first(bytes, offset + 8);
    law_numbers_have_their_lowest_byte_first(bytes, offset + 16);
    law_numbers_have_their_lowest_byte_first(bytes, offset + 24);
    law_numbers_have_their_lowest_byte_first(bytes, offset + 26);
    law_numbers_have_their_lowest_byte_first(bytes, offset + 28);
    law_numbers_have_their_lowest_byte_first(bytes, offset + 32);
    law_numbers_have_their_lowest_byte_first(bytes, offset + 40);
    law_numbers_have_their_lowest_byte_first(bytes, offset + 44);
}

/// The bytes of one `ActivateViewResponse`.
pub proof fn law_layout_of_activate_view_response(value: ActivateViewResponse, bytes: Seq<u8>, offset: int)
    ensures
        ActivateViewResponse::spec_size() == 48,
        value.laid_out(bytes, offset) <==> {
            &&& value.header.abi_version == number(bytes, offset, 2)
            &&& value.header.struct_size == number(bytes, offset + 2, 2)
            &&& value.header.flags == number(bytes, offset + 4, 4)
            &&& value.header.request_id == number(bytes, offset + 8, 8)
            &&& value.header.session_nonce == number(bytes, offset + 16, 8)
            &&& value.header.error.phase == number(bytes, offset + 24, 4)
            &&& value.header.error.code == number(bytes, offset + 28, 4)
            &&& value.header.error.cpu_dense_index == number(bytes, offset + 32, 2)
            &&& value.header.error.reserved == number(bytes, offset + 34, 2)
            &&& value.header.error.operation_index == number(bytes, offset + 36, 4)
            &&& value.header.error.detail == number(bytes, offset + 40, 8)
        },
{
    law_numbers_have_their_lowest_byte_first(bytes, offset);
    law_numbers_have_their_lowest_byte_first(bytes, offset + 2);
    law_numbers_have_their_lowest_byte_first(bytes, offset + 4);
    law_numbers_have_their_lowest_byte_first(bytes, offset + 8);
    law_numbers_have_their_lowest_byte_first(bytes, offset + 16);
    law_numbers_have_their_lowest_byte_first(bytes, offset + 24);
    law_numbers_have_their_lowest_byte_first(bytes, offset + 28);
    law_numbers_have_their_lowest_byte_first(bytes, offset + 32);
    law_numbers_have_their_lowest_byte_first(bytes, offset + 34);
    law_numbers_have_their_lowest_byte_first(bytes, offset + 36);
    law_numbers_have_their_lowest_byte_first(bytes, offset + 40);
}

/// The bytes of one `ReadEventsRequest`.
pub proof fn law_layout_of_read_events_request(value: ReadEventsRequest, bytes: Seq<u8>, offset: int)
    ensures
        ReadEventsRequest::spec_size() == 40,
        value.laid_out(bytes, offset) <==> {
            &&& value.header.abi_version == number(bytes, offset, 2)
            &&& value.header.struct_size == number(bytes, offset + 2, 2)
            &&& value.header.flags == number(bytes, offset + 4, 4)
            &&& value.header.request_id == number(bytes, offset + 8, 8)
            &&& value.header.session_nonce == number(bytes, offset + 16, 8)
            &&& value.cpu_dense_index == number(bytes, offset + 24, 2)
            &&& value.reserved0 == number(bytes, offset + 26, 2)
            &&& value.max_records == number(bytes, offset + 28, 4)
            &&& value.after_sequence == number(bytes, offset + 32, 8)
        },
{
    law_numbers_have_their_lowest_byte_first(bytes, offset);
    law_numbers_have_their_lowest_byte_first(bytes, offset + 2);
    law_numbers_have_their_lowest_byte_first(bytes, offset + 4);
    law_numbers_have_their_lowest_byte_first(bytes, offset + 8);
    law_numbers_have_their_lowest_byte_first(bytes, offset + 16);
    law_numbers_have_their_lowest_byte_first(bytes, offset + 24);
    law_numbers_have_their_lowest_byte_first(bytes, offset + 26);
    law_numbers_have_their_lowest_byte_first(bytes, offset + 28);
    law_numbers_have_their_lowest_byte_first(bytes, offset + 32);
}

/// The bytes of one `ReadEventsResponse`.
pub proof fn law_layout_of_read_events_response(value: ReadEventsResponse, bytes: Seq<u8>, offset: int)
    ensures
        ReadEventsResponse::spec_size() == 72,
        value.laid_out(bytes, offset) <==> {
            &&& value.header.abi_version == number(bytes, offset, 2)
            &&& value.header.struct_size == number(bytes, offset + 2, 2)
            &&& value.header.flags == number(bytes, offset + 4, 4)
            &&& value.header.request_id == number(bytes, offset + 8, 8)
            &&& value.header.session_nonce == number(bytes, offset + 16, 8)
            &&& value.header.error.phase == number(bytes, offset + 24, 4)
            &&& value.header.error.code == number(bytes, offset + 28, 4)
            &&& value.header.error.cpu_dense_index == number(bytes, offset + 32, 2)
            &&& value.header.error.reserved == number(bytes, offset + 34, 2)
            &&& value.header.error.operation_index == number(bytes, offset + 36, 4)
            &&& value.header.error.detail == number(bytes, offset + 40, 8)
            &&& value.record_count == number(bytes, offset + 48, 4)
            &&& value.reserved == number(bytes, offset + 52, 4)
            &&& value.next_sequence == number(bytes, offset + 56, 8)
            &&& value.dropped == number(bytes, offset + 64, 8)
        },
{
    law_numbers_have_their_lowest_byte_first(bytes, offset);
    law_numbers_have_their_lowest_byte_first(bytes, offset + 2);
    law_numbers_have_their_lowest_byte_first(bytes, offset + 4);
    law_numbers_have_their_lowest_byte_first(bytes, offset + 8);
    law_numbers_have_their_lowest_byte_first(bytes, offset + 16);
    law_numbers_have_their_lowest_byte_first(bytes, offset + 24);
    law_numbers_have_their_lowest_byte_first(bytes, offset + 28);
    law_numbers_have_their_lowest_byte_first(bytes, offset + 32);
    law_numbers_have_their_lowest_byte_first(bytes, offset + 34);
    law_numbers_have_their_lowest_byte_first(bytes, offset + 36);
    law_numbers_have_their_lowest_byte_first(bytes, offset + 40);
    law_numbers_have_their_lowest_byte_first(bytes, offset + 48);
    law_numbers_have_their_lowest_byte_first(bytes, offset + 52);
    law_numbers_have_their_lowest_byte_first(bytes, offset + 56);
    law_numbers_have_their_lowest_byte_first(bytes, offset + 64);
}

/// The bytes of one `GetVcpuStateRequest`.
pub proof fn law_layout_of_get_vcpu_state_request(value: GetVcpuStateRequest, bytes: Seq<u8>, offset: int)
    ensures
        GetVcpuStateRequest::spec_size() == 32,
        value.laid_out(bytes, offset) <==> {
            &&& value.header.abi_version == number(bytes, offset, 2)
            &&& value.header.struct_size == number(bytes, offset + 2, 2)
            &&& value.header.flags == number(bytes, offset + 4, 4)
            &&& value.header.request_id == number(bytes, offset + 8, 8)
            &&& value.header.session_nonce == number(bytes, offset + 16, 8)
            &&& value.cpu_dense_index == number(bytes, offset + 24, 2)
            &&& value.reserved0 == number(bytes, offset + 26, 2)
            &&& value.reserved == number(bytes, offset + 28, 4)
        },
{
    law_numbers_have_their_lowest_byte_first(bytes, offset);
    law_numbers_have_their_lowest_byte_first(bytes, offset + 2);
    law_numbers_have_their_lowest_byte_first(bytes, offset + 4);
    law_numbers_have_their_lowest_byte_first(bytes, offset + 8);
    law_numbers_have_their_lowest_byte_first(bytes, offset + 16);
    law_numbers_have_their_lowest_byte_first(bytes, offset + 24);
    law_numbers_have_their_lowest_byte_first(bytes, offset + 26);
    law_numbers_have_their_lowest_byte_first(bytes, offset + 28);
}

/// The bytes of one `GetVcpuStateResponse`.
pub proof fn law_layout_of_get_vcpu_state_response(value: GetVcpuStateResponse, bytes: Seq<u8>, offset: int)
    ensures
        GetVcpuStateResponse::spec_size() == 112,
        value.laid_out(bytes, offset) <==> {
            &&& value.header.abi_version == number(bytes, offset, 2)
            &&& value.header.struct_size == number(bytes, offset + 2, 2)
            &&& value.header.flags == number(bytes, offset + 4, 4)
            &&& value.header.request_id == number(bytes, offset + 8, 8)
            &&& value.header.session_nonce == number(bytes, offset + 16, 8)
            &&& value.header.error.phase == number(bytes, offset + 24, 4)
            &&& value.header.error.code == number(bytes, offset + 28, 4)
            &&& value.header.error.cpu_dense_index == number(bytes, offset + 32, 2)
            &&& value.header.error.reserved == number(bytes, offset + 34, 2)
            &&& value.header.error.operation_index == number(bytes, offset + 36, 4)
            &&& value.header.error.detail == number(bytes, offset + 40, 8)
            &&& value.cpu_dense_index == number(bytes, offset + 48, 2)
            &&& value.vmx_state == bytes[offset + 50]
            &&& value.reserved0 == bytes[offset + 51]
            &&& value.reserved1 == number(bytes, offset + 52, 4)
            &&& value.active_view.slot == number(bytes, offset + 56, 2)
            &&& value.active_view.reserved == number(bytes, offset + 58, 2)
            &&& value.active_view.reserved1 == number(bytes, offset + 60, 4)
            &&& value.active_view.generation == number(bytes, offset + 64, 8)
            &&& value.last_epoch == number(bytes, offset + 72, 8)
            &&& value.last_fatal == number(bytes, offset + 80, 4)
            &&& value.last_mailbox == number(bytes, offset + 84, 4)
            &&& value.event_sequence == number(bytes, offset + 88, 8)
            &&& value.reserved@[0] == number(bytes, offset + 96, 8)
            &&& value.reserved@[1] == number(bytes, offset + 104, 8)
        },
{
    law_numbers_have_their_lowest_byte_first(bytes, offset);
    law_numbers_have_their_lowest_byte_first(bytes, offset + 2);
    law_numbers_have_their_lowest_byte_first(bytes, offset + 4);
    law_numbers_have_their_lowest_byte_first(bytes, offset + 8);
    law_numbers_have_their_lowest_byte_first(bytes, offset + 16);
    law_numbers_have_their_lowest_byte_first(bytes, offset + 24);
    law_numbers_have_their_lowest_byte_first(bytes, offset + 28);
    law_numbers_have_their_lowest_byte_first(bytes, offset + 32);
    law_numbers_have_their_lowest_byte_first(bytes, offset + 34);
    law_numbers_have_their_lowest_byte_first(bytes, offset + 36);
    law_numbers_have_their_lowest_byte_first(bytes, offset + 40);
    law_numbers_have_their_lowest_byte_first(bytes, offset + 48);
    law_numbers_have_their_lowest_byte_first(bytes, offset + 52);
    law_numbers_have_their_lowest_byte_first(bytes, offset + 56);
    law_numbers_have_their_lowest_byte_first(bytes, offset + 58);
    law_numbers_have_their_lowest_byte_first(bytes, offset + 60);
    law_numbers_have_their_lowest_byte_first(bytes, offset + 64);
    law_numbers_have_their_lowest_byte_first(bytes, offset + 72);
    law_numbers_have_their_lowest_byte_first(bytes, offset + 80);
    law_numbers_have_their_lowest_byte_first(bytes, offset + 84);
    law_numbers_have_their_lowest_byte_first(bytes, offset + 88);
    law_numbers_have_their_lowest_byte_first(bytes, offset + 96);
    law_numbers_have_their_lowest_byte_first(bytes, offset + 104);
}

} // verus!
