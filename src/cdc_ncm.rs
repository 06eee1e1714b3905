//! The USB CDC-NCM class: notification messages, the answers to class
//! requests, alternate settings, strings and the configuration descriptors.
//! The USB device stack performs the transfers; these functions decide what
//! goes into them.

use vstd::prelude::*;
use crate::ncm_api::{le16, le32, read32, NCM_MAX_IN_SIZE, NCM_MAX_OUT_SIZE};

verus! {

/// Device class to use when building the USB device.
pub const USB_CLASS_CDC: u8 = 0x02;

pub const USB_CLASS_CDC_DATA: u8 = 0x0a;

/// Device subclass to use when building the USB device.
pub const CDC_SUBCLASS_NCM: u8 = 0x0D;

pub const CDC_PROTOCOL_NONE: u8 = 0x00;

/// Protocol code of the NCM data interface.
pub const CDC_PROTOCOL_NTB: u8 = 0x01;

pub const CS_INTERFACE: u8 = 0x24;

pub const CDC_TYPE_HEADER: u8 = 0x00;

pub const CDC_TYPE_UNION: u8 = 0x06;

pub const ETH_NET_FUNC_DESC: u8 = 0x0f;

pub const NCM_FUNC_DESC: u8 = 0x1A;

/// Largest Ethernet segment announced to the host.
pub const NCM_MAX_SEGMENT_SIZE: u16 = 1514;

/// Header shared by CDC notifications.
#[derive(Debug, Clone, Copy, PartialEq, Eq, Structural)]
pub struct NotifyHeader {
    pub requestype: u8,
    pub notificationtype: u8,
    pub value: u16,
    pub index: u16,
    pub length: u16,
}

/// Encoding of a notification header.
pub open spec fn notify_header_bytes(h: NotifyHeader) -> Seq<u8> {
    seq![h.requestype, h.notificationtype] + le16(h.value) + le16(h.index) + le16(h.length)
}

/// Body of a `ConnectionSpeedChange` notification, in bits per second.
#[derive(Debug, Clone, Copy, PartialEq, Eq, Structural)]
pub struct CdcSpeedChangeBody {
    pub bitrate_dl: u32,
    pub bitrate_ul: u32,
}

/// A `ConnectionSpeedChange` notification.
#[derive(Debug, Clone, Copy, PartialEq, Eq, Structural)]
pub struct CdcSpeedChangeMsg {
    pub header: NotifyHeader,
    pub body: CdcSpeedChangeBody,
}

/// A `NetworkConnection` notification.
#[derive(Debug, Clone, Copy, PartialEq, Eq, Structural)]
pub struct CdcConnectionNotifyMsg {
    pub header: NotifyHeader,
}

/// Writes the little-endian bytes of `x` at `a[at..at + 2]`.
fn put16<const N: usize>(a: &mut [u8; N], at: usize, x: u16)
    requires
        at + 2 <= N,
    ensures
        final(a)@ == old(a)@.update(at as int, (x % 256) as u8).update(at + 1, (x / 256) as u8),
{
    a[at] = (x % 256) as u8;
    a[at + 1] = (x / 256) as u8;
}

/// Writes the little-endian bytes of `x` at `a[at..at + 4]`.
fn put32<const N: usize>(a: &mut [u8; N], at: usize, x: u32)
    requires
        at + 4 <= N,
    ensures
        final(a)@ == old(a)@.update(at as int, (x % 256) as u8).update(at + 1, ((x / 256) % 256) as u8).update(
            at + 2,
            ((x / 65536) % 256) as u8,
        ).update(at + 3, (x / 16777216) as u8),
{
    a[at] = (x % 256) as u8;
    a[at + 1] = ((x / 256) % 256) as u8;
    a[at + 2] = ((x / 65536) % 256) as u8;
    a[at + 3] = (x / 16777216) as u8;
}

impl Default for CdcSpeedChangeMsg {
    /// Both directions at 10 Mbit/s.
    fn default() -> (r: Self)
        ensures
            r == (CdcSpeedChangeMsg {
                header: NotifyHeader {
                    requestype: 0xA1,
                    notificationtype: 0x2A,
                    value: 1,
                    index: 1,
                    length: 8,
                },
                body: CdcSpeedChangeBody { bitrate_dl: 10000000, bitrate_ul: 10000000 },
            }),
    {
        CdcSpeedChangeMsg {
            header: NotifyHeader {
                requestype: 0xA1,
                notificationtype: 0x2A,
                value: 1,
                index: 1,
                length: 8,
            },
            body: CdcSpeedChangeBody { bitrate_dl: 10 * 1000000, bitrate_ul: 10 * 1000000 },
        }
    }
}

impl CdcSpeedChangeMsg {
    /// The 16 bytes of the notification.
    pub fn to_bytes(&self) -> (r: [u8; 16])
        ensures
            r@ == notify_header_bytes(self.header) + le32(self.body.bitrate_dl) + le32(
                self.body.bitrate_ul,
            ),
    {
        let mut arr = [0u8; 16];
        arr[0] = self.header.requestype;
        arr[1] = self.header.notificationtype;
        put16(&mut arr, 2, self.header.value);
        put16(&mut arr, 4, self.header.index);
        put16(&mut arr, 6, self.header.length);
        put32(&mut arr, 8, self.body.bitrate_dl);
        put32(&mut arr, 12, self.body.bitrate_ul);
        assert(arr@ =~= notify_header_bytes(self.header) + le32(self.body.bitrate_dl) + le32(
            self.body.bitrate_ul,
        ));
        arr
    }
}

impl Default for CdcConnectionNotifyMsg {
    /// Connected.
    fn default() -> (r: Self)
        ensures
            r == (CdcConnectionNotifyMsg {
                header: NotifyHeader {
                    requestype: 0xA1,
                    notificationtype: 0x00,
                    value: 1,
                    index: 1,
                    length: 0,
                },
            }),
    {
        CdcConnectionNotifyMsg {
            header: NotifyHeader {
                requestype: 0xA1,
                notificationtype: 0x00,
                value: 1,
                index: 1,
                length: 0,
            },
        }
    }
}

impl CdcConnectionNotifyMsg {
    /// The 8 bytes of the notification.
    pub fn to_bytes(&self) -> (r: [u8; 8])
        ensures
            r@ == notify_header_bytes(self.header),
    {
        let mut arr = [0u8; 8];
        arr[0] = self.header.requestype;
        arr[1] = self.header.notificationtype;
        put16(&mut arr, 2, self.header.value);
        put16(&mut arr, 4, self.header.index);
        put16(&mut arr, 6, self.header.length);
        assert(arr@ =~= notify_header_bytes(self.header));
        arr
    }
}

/// The NCM class requests this device serves.
#[derive(Debug, Clone, Copy, PartialEq, Eq, Structural)]
pub enum CDCRequests {
    SetEthernetPacketFilter,
    GetNTBParameters,
    GetNTBInputSize,
    SetNTBInputSize,
}

/// The request with code `code`, if it is one this device serves.
pub open spec fn request_of(code: u8) -> Option<CDCRequests> {
    if code == 0x43 {
        Some(CDCRequests::SetEthernetPacketFilter)
    } else if code == 0x80 {
        Some(CDCRequests::GetNTBParameters)
    } else if code == 0x85 {
        Some(CDCRequests::GetNTBInputSize)
    } else if code == 0x86 {
        Some(CDCRequests::SetNTBInputSize)
    } else {
        None
    }
}

impl CDCRequests {
    /// The request with code `code`, if it is one this device serves.
    pub fn from_code(code: u8) -> (r: Option<CDCRequests>)
        ensures
            r == request_of(code),
    {
        if code == 0x43 {
            Some(CDCRequests::SetEthernetPacketFilter)
        } else if code == 0x80 {
            Some(CDCRequests::GetNTBParameters)
        } else if code == 0x85 {
            Some(CDCRequests::GetNTBInputSize)
        } else if code == 0x86 {
            Some(CDCRequests::SetNTBInputSize)
        } else {
            None
        }
    }
}

/// The answer to `GetNtbParameters`: 16-bit NTBs only, 2048-byte blocks both
/// ways, datagrams aligned on 4 bytes, one datagram per OUT NTB.
pub open spec fn ntb_parameters_bytes() -> Seq<u8> {
    le16(28) + le16(1) + le32(NCM_MAX_IN_SIZE as u32) + le16(4) + le16(0) + le16(4) + le16(0) + le32(
        NCM_MAX_OUT_SIZE as u32,
    ) + le16(4) + le16(4) + le16(4) + le16(1)
}

/// The answer to `GetNtbParameters`.
pub fn ntb_parameters() -> (r: [u8; 28])
    ensures
        r@ == ntb_parameters_bytes(),
{
    let mut data = [0u8; 28];
    put16(&mut data, 0, 28);
    put16(&mut data, 2, 1);
    put32(&mut data, 4, NCM_MAX_IN_SIZE as u32);
    put16(&mut data, 8, 4);
    put16(&mut data, 10, 0);
    put16(&mut data, 12, 4);
    put16(&mut data, 14, 0);
    put32(&mut data, 16, NCM_MAX_OUT_SIZE as u32);
    put16(&mut data, 20, 4);
    put16(&mut data, 22, 4);
    put16(&mut data, 24, 4);
    put16(&mut data, 26, 1);
    assert(data@ =~= ntb_parameters_bytes());
    data
}

/// `size`, capped at the largest NTB the device accepts.
pub open spec fn clamp_input_size(size: u32) -> u32 {
    if size > NCM_MAX_IN_SIZE {
        NCM_MAX_IN_SIZE as u32
    } else {
        size
    }
}

/// What the class keeps between control transfers: the NTB input size the
/// host asked for.
pub struct NcmControl {
    pub ntb_input_size: u32,
}

impl NcmControl {
    /// The input size starts at the largest NTB the device accepts.
    pub fn new() -> (r: Self)
        ensures
            r.ntb_input_size == NCM_MAX_IN_SIZE,
    {
        NcmControl { ntb_input_size: NCM_MAX_IN_SIZE as u32 }
    }

    /// The data to answer the class IN request `request` with, or `None` to
    /// stall it.
    pub fn control_in(&self, request: u8) -> (r: Option<Vec<u8>>)
        ensures
            request_of(request) == Some(CDCRequests::GetNTBParameters) ==> r is Some && r->Some_0@
                == ntb_parameters_bytes(),
            request_of(request) == Some(CDCRequests::GetNTBInputSize) ==> r is Some && r->Some_0@
                == le32(self.ntb_input_size),
            request_of(request) != Some(CDCRequests::GetNTBParameters) && request_of(request)
                != Some(CDCRequests::GetNTBInputSize) ==> r is None,
    {
        match CDCRequests::from_code(request) {
            Some(CDCRequests::GetNTBParameters) => {
                let p = ntb_parameters();
                let mut v: Vec<u8> = Vec::new();
                let mut i: usize = 0;
                while i < 28
                    invariant
                        i <= 28,
                        p@.len() == 28,
                        v@ == p@.take(i as int),
                    decreases 28 - i,
                {
                    v.push(p[i]);
                    assert(p@.take(i + 1) =~= p@.take(i as int).push(p@[i as int]));
                    i = i + 1;
                }
                assert(p@.take(28) =~= p@);
                Some(v)
            },
            Some(CDCRequests::GetNTBInputSize) => {
                let x = self.ntb_input_size;
                let v = vec![
                    (x % 256) as u8,
                    ((x / 256) % 256) as u8,
                    ((x / 65536) % 256) as u8,
                    (x / 16777216) as u8,
                ];
                assert(v@ =~= le32(x));
                Some(v)
            },
            _ => None,
        }
    }

    /// Serves the class OUT request `request` carrying `data`; returns whether it
    /// is accepted (otherwise it is stalled). `SetNtbInputSize` takes a 4-byte
    /// little-endian size and keeps it, capped at the largest NTB accepted;
    /// `SetEthernetPacketFilter` is accepted and ignored.
    pub fn control_out(&mut self, request: u8, data: &[u8]) -> (r: bool)
        ensures
            request_of(request) == Some(CDCRequests::SetEthernetPacketFilter) ==> r
                && final(self).ntb_input_size == old(self).ntb_input_size,
            request_of(request) == Some(CDCRequests::SetNTBInputSize) && data@.len() >= 4 ==> r,
            request_of(request) == Some(CDCRequests::SetNTBInputSize) && data@.len() >= 4
                ==> final(self).ntb_input_size == clamp_input_size(read32(data@, 0)),
            request_of(request) == Some(CDCRequests::SetNTBInputSize) && data@.len() < 4 ==> !r
                && final(self).ntb_input_size == old(self).ntb_input_size,
            request_of(request) != Some(CDCRequests::SetEthernetPacketFilter) && request_of(request)
                != Some(CDCRequests::SetNTBInputSize) ==> !r,
            request_of(request) != Some(CDCRequests::SetEthernetPacketFilter) && request_of(request)
                != Some(CDCRequests::SetNTBInputSize) ==> final(self).ntb_input_size
                == old(self).ntb_input_size,
    {
        match CDCRequests::from_code(request) {
            Some(CDCRequests::SetEthernetPacketFilter) => true,
            Some(CDCRequests::SetNTBInputSize) => {
                if data.len() < 4 {
                    return false;
                }
                let size = data[0] as u32 + (data[1] as u32) * 256 + (data[2] as u32) * 65536
                    + (data[3] as u32) * 16777216;
                self.ntb_input_size = if size > NCM_MAX_IN_SIZE as u32 {
                    NCM_MAX_IN_SIZE as u32
                } else {
                    size
                };
                true
            },
            _ => false,
        }
    }
}

/// The alternate setting reported for `interface`: the data interface runs
/// alternate setting 1; other interfaces are left to the stack.
pub fn get_alt_setting(interface: u8, data_if: u8) -> (r: Option<u8>)
    ensures
        r == if interface == data_if { Some(1u8) } else { None },
{
    if interface == data_if {
        Some(1)
    } else {
        None
    }
}

/// Whether the host may select `alternative` on `interface`: only alternate
/// setting 1 of the data interface, which enables data flow.
pub fn set_alt_setting(interface: u8, alternative: u8, data_if: u8) -> (r: bool)
    ensures
        r == (interface == data_if && alternative == 1),
{
    interface == data_if && alternative == 1
}

/// The string for string descriptor `index`: the interface name, or the MAC
/// address of the host side as 12 hexadecimal digits.
pub fn get_string(index: u8, name_index: u8, mac_index: u8) -> (r: Option<&'static str>)
    ensures
        index == name_index ==> r == Some("IP Gateway"),
        index != name_index && index == mac_index ==> r == Some("0080E1000000"),
        index != name_index && index != mac_index ==> r is None,
{
    if index == name_index {
        Some("IP Gateway")
    } else if index == mac_index {
        Some("0080E1000000")
    } else {
        None
    }
}

/// An endpoint of the class.
#[derive(Debug, Clone, Copy, PartialEq, Eq, Structural)]
pub enum NcmEndpoint {
    Notification,
    BulkOut,
    BulkIn,
}

/// One entry of the configuration descriptor set, in the order it is written.
#[derive(Debug)]
pub enum DescriptorItem {
    /// An interface association descriptor.
    Iad { first_interface: u8, interface_count: u8, function_class: u8, function_sub_class: u8, function_protocol: u8 },
    /// An interface descriptor (alternate setting 0, no string).
    Interface { number: u8, class: u8, sub_class: u8, protocol: u8 },
    /// A class-specific interface descriptor (type `CS_INTERFACE`) with this payload.
    ClassSpecific { payload: Vec<u8> },
    /// The descriptor of one of the class's endpoints.
    Endpoint { endpoint: NcmEndpoint },
    /// An interface descriptor for an alternate setting.
    InterfaceAlt { number: u8, alternate: u8, class: u8, sub_class: u8, protocol: u8, string: Option<u8> },
}

/// Whether `d` is a class-specific descriptor with payload `p`.
pub open spec fn class_specific(d: DescriptorItem, p: Seq<u8>) -> bool {
    match d {
        DescriptorItem::ClassSpecific { payload } => payload@ == p,
        _ => false,
    }
}

/// The configuration descriptors of the class: the association of the two
/// interfaces, the communication interface with its functional descriptors and
/// notification endpoint, then the data interface without endpoints
/// (alternate 0) and with its two bulk endpoints (alternate 1).
pub fn configuration_descriptors(comm_if: u8, data_if: u8, mac_string: u8, name_string: u8) -> (r: Vec<
    DescriptorItem,
>)
    ensures
        r@.len() == 11,
        r@[0] == (DescriptorItem::Iad {
            first_interface: comm_if,
            interface_count: 2,
            function_class: USB_CLASS_CDC,
            function_sub_class: CDC_SUBCLASS_NCM,
            function_protocol: CDC_PROTOCOL_NONE,
        }),
        r@[1] == (DescriptorItem::Interface {
            number: comm_if,
            class: USB_CLASS_CDC,
            sub_class: CDC_SUBCLASS_NCM,
            protocol: CDC_PROTOCOL_NONE,
        }),
        class_specific(r@[2], seq![CDC_TYPE_HEADER, 0x10, 0x01]),
        class_specific(r@[3], seq![CDC_TYPE_UNION, comm_if, data_if]),
        class_specific(
            r@[4],
            seq![ETH_NET_FUNC_DESC, mac_string, 0, 0, 0, 0] + le16(NCM_MAX_SEGMENT_SIZE) + seq![0, 0, 0],
        ),
        class_specific(r@[5], seq![NCM_FUNC_DESC, 0x00, 0x01, 0x00]),
        r@[6] == (DescriptorItem::Endpoint { endpoint: NcmEndpoint::Notification }),
        r@[7] == (DescriptorItem::InterfaceAlt {
            number: data_if,
            alternate: 0,
            class: USB_CLASS_CDC_DATA,
            sub_class: 0,
            protocol: CDC_PROTOCOL_NTB,
            string: None,
        }),
        r@[8] == (DescriptorItem::InterfaceAlt {
            number: data_if,
            alternate: 1,
            class: USB_CLASS_CDC_DATA,
            sub_class: 0,
            protocol: CDC_PROTOCOL_NTB,
            string: Some(name_string),
        }),
        r@[9] == (DescriptorItem::Endpoint { endpoint: NcmEndpoint::BulkOut }),
        r@[10] == (DescriptorItem::Endpoint { endpoint: NcmEndpoint::BulkIn }),
{
    let mut r: Vec<DescriptorItem> = Vec::new();
    r.push(
        DescriptorItem::Iad {
            first_interface: comm_if,
            interface_count: 2,
            function_class: USB_CLASS_CDC,
            function_sub_class: CDC_SUBCLASS_NCM,
            function_protocol: CDC_PROTOCOL_NONE,
        },
    );
    r.push(
        DescriptorItem::Interface {
            number: comm_if,
            class: USB_CLASS_CDC,
            sub_class: CDC_SUBCLASS_NCM,
            protocol: CDC_PROTOCOL_NONE,
        },
    );
    r.push(DescriptorItem::ClassSpecific { payload: vec![CDC_TYPE_HEADER, 0x10, 0x01] });
    r.push(DescriptorItem::ClassSpecific { payload: vec![CDC_TYPE_UNION, comm_if, data_if] });
    let eth = vec![
        ETH_NET_FUNC_DESC,
        mac_string,
        0x0,
        0x0,
        0x0,
        0x0,
        (NCM_MAX_SEGMENT_SIZE % 256) as u8,
        (NCM_MAX_SEGMENT_SIZE / 256) as u8,
        0x0,
        0x0,
        0x0,
    ];
    assert(eth@ =~= seq![ETH_NET_FUNC_DESC, mac_string, 0, 0, 0, 0] + le16(NCM_MAX_SEGMENT_SIZE)
        + seq![0, 0, 0]);
    r.push(DescriptorItem::ClassSpecific { payload: eth });
    r.push(DescriptorItem::ClassSpecific { payload: vec![NCM_FUNC_DESC, 0x00, 0x01, 0x00] });
    r.push(DescriptorItem::Endpoint { endpoint: NcmEndpoint::Notification });
    r.push(
        DescriptorItem::InterfaceAlt {
            number: data_if,
            alternate: 0,
            class: USB_CLASS_CDC_DATA,
            sub_class: 0,
            protocol: CDC_PROTOCOL_NTB,
            string: None,
        },
    );
    r.push(
        DescriptorItem::InterfaceAlt {
            number: data_if,
            alternate: 1,
            class: USB_CLASS_CDC_DATA,
            sub_class: 0,
            protocol: CDC_PROTOCOL_NTB,
            string: Some(name_string),
        },
    );
    r.push(DescriptorItem::Endpoint { endpoint: NcmEndpoint::BulkOut });
    r.push(DescriptorItem::Endpoint { endpoint: NcmEndpoint::BulkIn });
    r
}

} // verus!
