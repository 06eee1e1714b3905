use ipoverusb::cdc_ncm::{
    configuration_descriptors, get_alt_setting, get_string, ntb_parameters, set_alt_setting,
    CdcConnectionNotifyMsg, CdcSpeedChangeMsg, CDCRequests, DescriptorItem, NcmControl, NcmEndpoint,
};
use ipoverusb::ncm_netif::StmPhy;
use ipoverusb::usbipserver::{UsbBridge, UsbIpAction, UsbIpBootState};

#[test]
fn get_ntb_parameters_answer() {
    let expected: Vec<u8> = vec![
        0x1C, 0x00, 0x01, 0x00, 0x00, 0x08, 0x00, 0x00, 0x04, 0x00, 0x00, 0x00, 0x04, 0x00, 0x00, 0x00,
        0x00, 0x08, 0x00, 0x00, 0x04, 0x00, 0x04, 0x00, 0x04, 0x00, 0x01, 0x00,
    ];
    assert_eq!(ntb_parameters().to_vec(), expected);
    let c = NcmControl::new();
    assert_eq!(c.control_in(0x80), Some(expected));
}

#[test]
fn ntb_input_size_requests() {
    let mut c = NcmControl::new();
    assert_eq!(c.control_in(0x85), Some(vec![0x00, 0x08, 0x00, 0x00]));
    assert!(c.control_out(0x86, &[0x00, 0x04, 0x00, 0x00]));
    assert_eq!(c.ntb_input_size, 1024);
    assert_eq!(c.control_in(0x85), Some(vec![0x00, 0x04, 0x00, 0x00]));
    assert!(c.control_out(0x86, &[0x00, 0x00, 0x01, 0x00]));
    assert_eq!(c.ntb_input_size, 2048);
    assert!(!c.control_out(0x86, &[0x00, 0x04, 0x00]));
    assert_eq!(c.ntb_input_size, 2048);
}

#[test]
fn other_class_requests() {
    let mut c = NcmControl::new();
    assert!(c.control_out(0x43, &[0x0C, 0x00]));
    assert!(!c.control_out(0x80, &[]));
    assert!(!c.control_out(0x01, &[]));
    assert_eq!(c.control_in(0x86), None);
    assert_eq!(c.control_in(0x43), None);
    assert_eq!(c.control_in(0x00), None);
    assert_eq!(CDCRequests::from_code(0x85), Some(CDCRequests::GetNTBInputSize));
    assert_eq!(CDCRequests::from_code(0x44), None);
}

#[test]
fn notification_messages() {
    let speed = CdcSpeedChangeMsg::default().to_bytes();
    assert_eq!(
        speed.to_vec(),
        vec![0xA1, 0x2A, 0x01, 0x00, 0x01, 0x00, 0x08, 0x00, 0x80, 0x96, 0x98, 0x00, 0x80, 0x96, 0x98, 0x00]
    );
    let conn = CdcConnectionNotifyMsg::default().to_bytes();
    assert_eq!(conn.to_vec(), vec![0xA1, 0x00, 0x01, 0x00, 0x01, 0x00, 0x00, 0x00]);
}

#[test]
fn descriptors_in_order() {
    let d = configuration_descriptors(0, 1, 5, 4);
    assert_eq!(d.len(), 11);
    assert!(matches!(
        d[0],
        DescriptorItem::Iad { first_interface: 0, interface_count: 2, function_class: 0x02, function_sub_class: 0x0D, function_protocol: 0 }
    ));
    match &d[4] {
        DescriptorItem::ClassSpecific { payload } => {
            assert_eq!(payload, &vec![0x0F, 5, 0, 0, 0, 0, 0xEA, 0x05, 0, 0, 0]);
        }
        _ => panic!("expected the Ethernet functional descriptor"),
    }
    match &d[3] {
        DescriptorItem::ClassSpecific { payload } => assert_eq!(payload, &vec![0x06, 0, 1]),
        _ => panic!("expected the union functional descriptor"),
    }
    assert!(matches!(d[6], DescriptorItem::Endpoint { endpoint: NcmEndpoint::Notification }));
    assert!(matches!(d[8], DescriptorItem::InterfaceAlt { number: 1, alternate: 1, string: Some(4), .. }));
    assert!(matches!(d[10], DescriptorItem::Endpoint { endpoint: NcmEndpoint::BulkIn }));
}

#[test]
fn alt_settings_and_strings() {
    assert_eq!(get_alt_setting(1, 1), Some(1));
    assert_eq!(get_alt_setting(0, 1), None);
    assert!(set_alt_setting(1, 1, 1));
    assert!(!set_alt_setting(1, 0, 1));
    assert!(!set_alt_setting(0, 1, 1));
    assert_eq!(get_string(4, 4, 5), Some("IP Gateway"));
    assert_eq!(get_string(5, 4, 5), Some("0080E1000000"));
    assert_eq!(get_string(6, 4, 5), None);
}

#[test]
fn boot_handshake() {
    let mut b = UsbBridge::new();
    assert_eq!(b.bootstate, UsbIpBootState::Speed);
    assert_eq!(b.action(), UsbIpAction::SendSpeed);
    b.notification_result(false);
    assert_eq!(b.bootstate, UsbIpBootState::Speed);
    b.notification_result(true);
    assert_eq!(b.bootstate, UsbIpBootState::Notify);
    assert_eq!(b.action(), UsbIpAction::SendConnection);
    b.notification_result(true);
    assert_eq!(b.bootstate, UsbIpBootState::Normal);
    assert_eq!(b.action(), UsbIpAction::Transfer);
    b.notification_result(true);
    assert_eq!(b.bootstate, UsbIpBootState::Normal);
}

#[test]
fn bridge_flushes_full_rx_queue() {
    let mut b = UsbBridge::new();
    for k in 0..4u8 {
        assert!(b.rx_ready());
        assert!(b.packet_received((1, [k; 64])));
    }
    assert!(!b.rx_ready());
    assert!(b.rxq.is_empty());
    assert!(b.rx_ready());
}

#[test]
fn bridge_holds_one_packet_in_flight() {
    let mut b = UsbBridge::new();
    assert_eq!(b.tx_packet(), None);
    b.txq.push((3, [7u8; 64])).unwrap();
    b.txq.push((2, [8u8; 64])).unwrap();
    assert_eq!(b.tx_packet().map(|p| p.0), Some(3));
    assert_eq!(b.tx_packet().map(|p| p.0), Some(3));
    b.tx_written();
    assert_eq!(b.tx_packet().map(|p| p.0), Some(2));
    b.tx_written();
    assert_eq!(b.tx_packet(), None);
}

#[test]
fn phy_queues() {
    let mut phy = StmPhy::new();
    assert!(!phy.can_receive());
    assert!(phy.can_transmit());
    assert!(phy.send_frame(3, [1u8; 576]));
    assert!(phy.send_frame(4, [2u8; 576]));
    assert!(!phy.can_transmit());
    assert!(!phy.send_frame(5, [3u8; 576]));
    assert_eq!(phy.txq.pop().unwrap().0, 3);
    phy.rxq.push((9, [0u8; 576])).unwrap();
    assert!(phy.can_receive());
    assert_eq!(phy.receive_frame().map(|f| f.0), Some(9));
    assert_eq!(phy.receive_frame(), None);
}
