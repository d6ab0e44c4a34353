use whiskers::codec::RfCatPacket;
use whiskers::commands::{AppMailbox, SystemCommand};
use whiskers::dispatch::MailboxQueues;
use whiskers::negotiate::{
    scan_endpoints, needs_activation, BulkEndpoints, EndpointDirection, EndpointInfo, TransferKind,
};
use whiskers::matcher::DeviceMode;
use whiskers::radiocfg::RadioConfig;

#[test]
fn queues_keep_fifo_order_per_key() {
    let mut queues = MailboxQueues::new();
    queues.enqueue(RfCatPacket::payload(
        AppMailbox::AppSystem,
        SystemCommand::Ping,
        vec![1],
    ));
    queues.enqueue(RfCatPacket::payload(
        AppMailbox::AppSystem,
        SystemCommand::Ping,
        vec![2],
    ));
    queues.enqueue(RfCatPacket::payload(
        AppMailbox::AppSystem,
        SystemCommand::Ping,
        vec![3],
    ));
    let a = queues.dequeue(AppMailbox::AppSystem, SystemCommand::Ping).unwrap();
    let b = queues.dequeue(AppMailbox::AppSystem, SystemCommand::Ping).unwrap();
    let c = queues.dequeue(AppMailbox::AppSystem, SystemCommand::Ping).unwrap();
    assert_eq!(a.payload, vec![1]);
    assert_eq!(b.payload, vec![2]);
    assert_eq!(c.payload, vec![3]);
    assert!(queues.dequeue(AppMailbox::AppSystem, SystemCommand::Ping).is_none());
}

#[test]
fn queues_multiplex_by_key() {
    let mut queues = MailboxQueues::new();
    queues.enqueue(RfCatPacket::payload(
        AppMailbox::AppSystem,
        SystemCommand::Ping,
        vec![10],
    ));
    queues.enqueue(RfCatPacket::payload(
        AppMailbox::AppSystem,
        SystemCommand::BuildType,
        vec![20],
    ));
    queues.enqueue(RfCatPacket::payload(
        AppMailbox::AppDebug,
        SystemCommand::Ping,
        vec![30],
    ));
    // draining one key leaves the others untouched
    assert_eq!(queues.pending_count(AppMailbox::AppSystem, SystemCommand::Ping), 1);
    assert_eq!(queues.pending_count(AppMailbox::AppSystem, SystemCommand::BuildType), 1);
    assert_eq!(queues.pending_count(AppMailbox::AppDebug, SystemCommand::Ping), 1);
    let p = queues.dequeue(AppMailbox::AppSystem, SystemCommand::Ping).unwrap();
    assert_eq!(p.payload, vec![10]);
    assert_eq!(p.mbx, AppMailbox::AppSystem);
    assert_eq!(p.cmd, SystemCommand::Ping);
    assert!(p.received);
    assert_eq!(queues.pending_count(AppMailbox::AppSystem, SystemCommand::Ping), 0);
    assert_eq!(queues.pending_count(AppMailbox::AppSystem, SystemCommand::BuildType), 1);
    assert_eq!(queues.pending_count(AppMailbox::AppDebug, SystemCommand::Ping), 1);
    let q = queues.dequeue(AppMailbox::AppDebug, SystemCommand::Ping).unwrap();
    assert_eq!(q.payload, vec![30]);
    assert_eq!(q.mbx, AppMailbox::AppDebug);
}

#[test]
fn dequeue_on_empty_key_is_none() {
    let mut queues = MailboxQueues::new();
    assert!(queues.dequeue(AppMailbox::AppSystem, SystemCommand::Ping).is_none());
    assert_eq!(queues.pending_count(AppMailbox::AppGeneric, SystemCommand::Status), 0);
}

#[test]
fn scan_records_last_seen_bulk_pair() {
    let bulk_in_a = EndpointInfo {
        transfer: TransferKind::Bulk,
        direction: EndpointDirection::In,
        address: 0x81,
        max_packet_size: 64,
    };
    let bulk_in_b = EndpointInfo {
        transfer: TransferKind::Bulk,
        direction: EndpointDirection::In,
        address: 0x85,
        max_packet_size: 512,
    };
    let bulk_out = EndpointInfo {
        transfer: TransferKind::Bulk,
        direction: EndpointDirection::Out,
        address: 0x05,
        max_packet_size: 64,
    };
    let interrupt_in = EndpointInfo {
        transfer: TransferKind::Interrupt,
        direction: EndpointDirection::In,
        address: 0x83,
        max_packet_size: 16,
    };
    let descs = vec![bulk_in_a, interrupt_in, bulk_out, bulk_in_b];
    assert_eq!(
        scan_endpoints(&descs),
        BulkEndpoints { in_address: 0x85, in_max_size: 512, out_address: 0x05 }
    );
}

#[test]
fn scan_defaults_without_bulk_descriptors() {
    // no bulk IN descriptor: the 64-byte default max size stays
    let interrupt_in = EndpointInfo {
        transfer: TransferKind::Interrupt,
        direction: EndpointDirection::In,
        address: 0x83,
        max_packet_size: 16,
    };
    let descs = vec![interrupt_in];
    assert_eq!(
        scan_endpoints(&descs),
        BulkEndpoints { in_address: 0, in_max_size: 64, out_address: 0 }
    );
    assert_eq!(
        scan_endpoints(&Vec::new()),
        BulkEndpoints { in_address: 0, in_max_size: 64, out_address: 0 }
    );
}

#[test]
fn only_operating_mode_is_activated() {
    assert!(needs_activation(DeviceMode::Operating));
    assert!(!needs_activation(DeviceMode::Bootloader));
}

#[test]
fn radio_config_byte_image_round_trip() {
    let cfg = RadioConfig::from_bytes(vec![0u8; 0x3e]).unwrap();
    assert_eq!(cfg.to_bytes().unwrap(), vec![0]);
}
