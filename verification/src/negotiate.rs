use vstd::prelude::*;

use crate::matcher::DeviceMode;

verus! {

/// The transfer type an endpoint descriptor advertises.
#[derive(Copy, Clone, PartialEq, Eq, Structural, Debug)]
pub enum TransferKind {
    Control,
    Isochronous,
    Bulk,
    Interrupt,
}

/// The direction an endpoint descriptor advertises.
#[derive(Copy, Clone, PartialEq, Eq, Structural, Debug)]
pub enum EndpointDirection {
    In,
    Out,
}

/// What the negotiator reads from one endpoint descriptor.
#[derive(Copy, Clone, PartialEq, Eq, Structural, Debug)]
pub struct EndpointInfo {
    pub transfer: TransferKind,
    pub direction: EndpointDirection,
    pub address: u8,
    pub max_packet_size: u16,
}

/// The bulk endpoint pair the negotiator settles on.
#[derive(Copy, Clone, PartialEq, Eq, Structural, Debug)]
pub struct BulkEndpoints {
    pub in_address: u8,
    pub in_max_size: u16,
    pub out_address: u8,
}

pub open spec fn is_bulk_in(d: EndpointInfo) -> bool {
    d.transfer == TransferKind::Bulk && d.direction == EndpointDirection::In
}

pub open spec fn is_bulk_out(d: EndpointInfo) -> bool {
    d.transfer == TransferKind::Bulk && d.direction == EndpointDirection::Out
}

/// The last-write-wins fold over the descriptor walk: each bulk IN
/// descriptor overwrites the recorded IN address and max packet size, each
/// bulk OUT descriptor overwrites the recorded OUT address. Before any
/// descriptor is seen, the addresses are zero and the IN max size is the
/// 64-byte default.
pub open spec fn spec_scan(descs: Seq<EndpointInfo>) -> BulkEndpoints
    decreases descs.len(),
{
    if descs.len() == 0 {
        BulkEndpoints { in_address: 0, in_max_size: 64, out_address: 0 }
    } else {
        let prev = spec_scan(descs.drop_last());
        let d = descs.last();
        if is_bulk_in(d) {
            BulkEndpoints {
                in_address: d.address,
                in_max_size: d.max_packet_size,
                out_address: prev.out_address,
            }
        } else if is_bulk_out(d) {
            BulkEndpoints {
                in_address: prev.in_address,
                in_max_size: prev.in_max_size,
                out_address: d.address,
            }
        } else {
            prev
        }
    }
}

/// Walk every endpoint descriptor of a device, in descriptor order, and
/// record the last-seen bulk IN endpoint's address and max packet size and
/// the last-seen bulk OUT endpoint's address. There is one expected bulk
/// pair per device, so later descriptors deliberately overwrite earlier
/// ones. With no bulk IN descriptor the max size stays at the 64-byte
/// default.
pub fn scan_endpoints(descs: &Vec<EndpointInfo>) -> (r: BulkEndpoints)
    ensures
        r == spec_scan(descs@),
{
    let mut acc = BulkEndpoints { in_address: 0, in_max_size: 64, out_address: 0 };
    let mut i: usize = 0;
    proof {
        assert(descs@.take(0) =~= Seq::<EndpointInfo>::empty());
    }
    while i < descs.len()
        invariant
            0 <= i <= descs@.len(),
            acc == spec_scan(descs@.take(i as int)),
        decreases descs@.len() - i,
    {
        let d = descs[i];
        proof {
            assert(descs@.take(i + 1).drop_last() =~= descs@.take(i as int));
            assert(descs@.take(i + 1).last() == descs@[i as int]);
        }
        if matches!(d.transfer, TransferKind::Bulk) && matches!(d.direction, EndpointDirection::In) {
            acc =
            BulkEndpoints {
                in_address: d.address,
                in_max_size: d.max_packet_size,
                out_address: acc.out_address,
            };
        } else if matches!(d.transfer, TransferKind::Bulk) && matches!(
            d.direction,
            EndpointDirection::Out,
        ) {
            acc =
            BulkEndpoints {
                in_address: acc.in_address,
                in_max_size: acc.in_max_size,
                out_address: d.address,
            };
        }
        i = i + 1;
    }
    proof {
        assert(descs@.take(descs@.len() as int) =~= descs@);
    }
    acc
}

/// If the walk saw a bulk IN descriptor at all, the recorded IN endpoint is
/// exactly the last one seen; likewise for bulk OUT.
pub proof fn lemma_scan_last_wins(descs: Seq<EndpointInfo>, i: int)
    requires
        0 <= i < descs.len(),
    ensures
        is_bulk_in(descs[i]) && (forall|j: int| i < j < descs.len() ==> !is_bulk_in(descs[j]))
            ==> spec_scan(descs).in_address == descs[i].address && spec_scan(descs).in_max_size
            == descs[i].max_packet_size,
        is_bulk_out(descs[i]) && (forall|j: int| i < j < descs.len() ==> !is_bulk_out(descs[j]))
            ==> spec_scan(descs).out_address == descs[i].address,
    decreases descs.len(),
{
    if i == descs.len() - 1 {
    } else {
        lemma_scan_last_wins(descs.drop_last(), i);
        assert(descs.drop_last()[i] == descs[i]);
        assert(forall|j: int| i < j < descs.len() - 1 ==> descs.drop_last()[j] == descs[j]);
    }
}

/// Only operating-mode devices get the activation step (select configuration
/// 1, claim interface 0, alternate setting 0,0); bootloader-mode devices are
/// identified from their descriptors alone and are left untouched.
pub fn needs_activation(mode: DeviceMode) -> (r: bool)
    ensures
        r == (mode == DeviceMode::Operating),
{
    match mode {
        DeviceMode::Operating => true,
        DeviceMode::Bootloader => false,
    }
}

} // verus!
