//! USB descriptors.
use crate::bytes::read_le16;
use vstd::prelude::*;

verus! {

/// The kinds of descriptor.
#[derive(Debug, Copy, Clone, PartialEq, Eq, Structural)]
#[non_exhaustive]
pub enum UsbDescriptorType {
    Device,
    Config,
    String,
    Interface,
    Endpoint,
}

impl UsbDescriptorType {
    /// The number that stands for the kind.
    pub open spec fn code(self) -> u8 {
        match self {
            UsbDescriptorType::Device => 1,
            UsbDescriptorType::Config => 2,
            UsbDescriptorType::String => 3,
            UsbDescriptorType::Interface => 4,
            UsbDescriptorType::Endpoint => 5,
        }
    }

    /// The number that stands for the kind.
    pub fn number(self) -> (r: u8)
        ensures
            r == self.code(),
    {
        match self {
            UsbDescriptorType::Device => 1,
            UsbDescriptorType::Config => 2,
            UsbDescriptorType::String => 3,
            UsbDescriptorType::Interface => 4,
            UsbDescriptorType::Endpoint => 5,
        }
    }
}

/// What a device says of itself.
#[derive(Debug, Copy, Clone, PartialEq, Eq, Structural)]
pub struct UsbDeviceDescriptor {
    pub desc_length: u8,
    pub desc_type: u8,
    pub version: u16,
    pub device_class: u8,
    pub device_subclass: u8,
    pub device_protocol: u8,
    pub max_packet_size: u8,
    pub vendor_id: u16,
    pub product_id: u16,
    pub device_version: u16,
    pub manufacturer_index: u8,
    pub product_index: u8,
    pub serial_idx: u8,
    pub num_of_config: u8,
}

impl Default for UsbDeviceDescriptor {
    fn default() -> (r: Self)
        ensures
            r == Self::blank(),
    {
        UsbDeviceDescriptor {
            desc_length: 0,
            desc_type: 0,
            version: 0,
            device_class: 0,
            device_subclass: 0,
            device_protocol: 0,
            max_packet_size: 0,
            vendor_id: 0,
            product_id: 0,
            device_version: 0,
            manufacturer_index: 0,
            product_index: 0,
            serial_idx: 0,
            num_of_config: 0,
        }
    }
}

impl UsbDeviceDescriptor {
    /// How many bytes the descriptor has.
    pub const SIZE: usize = 18;

    /// A descriptor of zeroes.
    pub open spec fn blank() -> Self {
        UsbDeviceDescriptor {
            desc_length: 0,
            desc_type: 0,
            version: 0,
            device_class: 0,
            device_subclass: 0,
            device_protocol: 0,
            max_packet_size: 0,
            vendor_id: 0,
            product_id: 0,
            device_version: 0,
            manufacturer_index: 0,
            product_index: 0,
            serial_idx: 0,
            num_of_config: 0,
        }
    }

    /// The descriptor as it lies in `s` from `i` on.
    pub open spec fn decoded(s: Seq<u8>, i: int) -> Self {
        UsbDeviceDescriptor {
            desc_length: s[i],
            desc_type: s[i + 1],
            version: crate::bytes::le16(s, i + 2) as u16,
            device_class: s[i + 4],
            device_subclass: s[i + 5],
            device_protocol: s[i + 6],
            max_packet_size: s[i + 7],
            vendor_id: crate::bytes::le16(s, i + 8) as u16,
            product_id: crate::bytes::le16(s, i + 10) as u16,
            device_version: crate::bytes::le16(s, i + 12) as u16,
            manufacturer_index: s[i + 14],
            product_index: s[i + 15],
            serial_idx: s[i + 16],
            num_of_config: s[i + 17],
        }
    }

    /// The eighteen bytes of the descriptor.
    pub open spec fn bytes(self) -> Seq<u8> {
        seq![self.desc_length, self.desc_type] + crate::bytes::le16_bytes(self.version) + seq![
            self.device_class,
            self.device_subclass,
            self.device_protocol,
            self.max_packet_size,
        ] + crate::bytes::le16_bytes(self.vendor_id) + crate::bytes::le16_bytes(self.product_id)
            + crate::bytes::le16_bytes(self.device_version) + seq![
            self.manufacturer_index,
            self.product_index,
            self.serial_idx,
            self.num_of_config,
        ]
    }

    /// Reads the descriptor from the start of `data`, if that is long enough.
    pub fn copy_from_slice(data: &[u8]) -> (r: Result<Self, &'static str>)
        ensures
            r == (if data@.len() >= 18 {
                Ok::<Self, &'static str>(Self::decoded(data@, 0))
            } else {
                Err("data is too short")
            }),
    {
        if data.len() < Self::SIZE {
            return Err("data is too short");
        }
        Ok(
            UsbDeviceDescriptor {
                desc_length: data[0],
                desc_type: data[1],
                version: read_le16(data, 2),
                device_class: data[4],
                device_subclass: data[5],
                device_protocol: data[6],
                max_packet_size: data[7],
                vendor_id: read_le16(data, 8),
                product_id: read_le16(data, 10),
                device_version: read_le16(data, 12),
                manufacturer_index: data[14],
                product_index: data[15],
                serial_idx: data[16],
                num_of_config: data[17],
            },
        )
    }
}

/// One configuration of a device.
#[derive(Debug, Copy, Clone, PartialEq, Eq, Structural)]
pub struct ConfigDescriptor {
    pub desc_length: u8,
    pub desc_type: u8,
    pub total_length: u16,
    pub num_of_interfaces: u8,
    pub config_value: u8,
    pub config_string_index: u8,
    pub attributes: u8,
    pub max_power: u8,
}

impl ConfigDescriptor {
    /// How many bytes the descriptor has.
    pub const SIZE: usize = 9;

    /// The descriptor as it lies in `s` from `i` on.
    pub open spec fn decoded(s: Seq<u8>, i: int) -> Self {
        ConfigDescriptor {
            desc_length: s[i],
            desc_type: s[i + 1],
            total_length: crate::bytes::le16(s, i + 2) as u16,
            num_of_interfaces: s[i + 4],
            config_value: s[i + 5],
            config_string_index: s[i + 6],
            attributes: s[i + 7],
            max_power: s[i + 8],
        }
    }

    /// The nine bytes of the descriptor.
    pub open spec fn bytes(self) -> Seq<u8> {
        seq![self.desc_length, self.desc_type] + crate::bytes::le16_bytes(self.total_length)
            + seq![
            self.num_of_interfaces,
            self.config_value,
            self.config_string_index,
            self.attributes,
            self.max_power,
        ]
    }

    /// Reads the descriptor from `data`, from `i` on, if that is long enough.
    pub fn read_at(data: &[u8], i: usize) -> (r: Result<Self, &'static str>)
        requires
            i <= data@.len(),
        ensures
            r == (if data@.len() - i >= 9 {
                Ok::<Self, &'static str>(Self::decoded(data@, i as int))
            } else {
                Err("data is too short")
            }),
    {
        if data.len() - i < Self::SIZE {
            return Err("data is too short");
        }
        Ok(
            ConfigDescriptor {
                desc_length: data[i],
                desc_type: data[i + 1],
                total_length: read_le16(data, i + 2),
                num_of_interfaces: data[i + 4],
                config_value: data[i + 5],
                config_string_index: data[i + 6],
                attributes: data[i + 7],
                max_power: data[i + 8],
            },
        )
    }

    /// Reads the descriptor from the start of `data`, if that is long enough.
    pub fn copy_from_slice(data: &[u8]) -> (r: Result<Self, &'static str>)
        ensures
            r == (if data@.len() >= 9 {
                Ok::<Self, &'static str>(Self::decoded(data@, 0))
            } else {
                Err("data is too short")
            }),
    {
        Self::read_at(data, 0)
    }

    /// The length of the configuration with all that belongs to it.
    pub fn total_length(&self) -> (r: usize)
        ensures
            r == self.total_length,
    {
        self.total_length as usize
    }

    /// The number by which the configuration is chosen.
    pub fn config_value(&self) -> (r: u8)
        ensures
            r == self.config_value,
    {
        self.config_value
    }
}

/// One interface of a configuration.
#[derive(Debug, Copy, Clone, PartialEq, Eq, Structural)]
pub struct InterfaceDescriptor {
    pub desc_length: u8,
    pub desc_type: u8,
    pub interface_number: u8,
    pub alt_setting: u8,
    pub num_of_endpoints: u8,
    pub interface_class: u8,
    pub interface_subclass: u8,
    pub interface_protocol: u8,
    pub interface_index: u8,
}

impl InterfaceDescriptor {
    /// How many bytes the descriptor has.
    pub const SIZE: usize = 9;

    /// The descriptor as it lies in `s` from `i` on.
    pub open spec fn decoded(s: Seq<u8>, i: int) -> Self {
        InterfaceDescriptor {
            desc_length: s[i],
            desc_type: s[i + 1],
            interface_number: s[i + 2],
            alt_setting: s[i + 3],
            num_of_endpoints: s[i + 4],
            interface_class: s[i + 5],
            interface_subclass: s[i + 6],
            interface_protocol: s[i + 7],
            interface_index: s[i + 8],
        }
    }

    /// The nine bytes of the descriptor.
    pub open spec fn bytes(self) -> Seq<u8> {
        seq![
            self.desc_length,
            self.desc_type,
            self.interface_number,
            self.alt_setting,
            self.num_of_endpoints,
            self.interface_class,
            self.interface_subclass,
            self.interface_protocol,
            self.interface_index,
        ]
    }

    /// Reads the descriptor from `data`, from `i` on, if that is long enough.
    pub fn read_at(data: &[u8], i: usize) -> (r: Result<Self, &'static str>)
        requires
            i <= data@.len(),
        ensures
            r == (if data@.len() - i >= 9 {
                Ok::<Self, &'static str>(Self::decoded(data@, i as int))
            } else {
                Err("data is too short")
            }),
    {
        if data.len() - i < Self::SIZE {
            return Err("data is too short");
        }
        Ok(
            InterfaceDescriptor {
                desc_length: data[i],
                desc_type: data[i + 1],
                interface_number: data[i + 2],
                alt_setting: data[i + 3],
                num_of_endpoints: data[i + 4],
                interface_class: data[i + 5],
                interface_subclass: data[i + 6],
                interface_protocol: data[i + 7],
                interface_index: data[i + 8],
            },
        )
    }

    /// Mass storage, SCSI commands, bulk-only transport.
    pub open spec fn bulk_storage(self) -> bool {
        self.interface_class == 8 && self.interface_subclass == 6 && self.interface_protocol
            == 0x50
    }

    /// Whether the interface is mass storage with SCSI commands over bulk-only transport.
    pub fn is_bulk_storage(&self) -> (r: bool)
        ensures
            r == self.bulk_storage(),
    {
        self.interface_class == 8 && self.interface_subclass == 6 && self.interface_protocol
            == 0x50
    }
}

/// One endpoint of an interface.
#[derive(Debug, Copy, Clone, PartialEq, Eq, Structural)]
pub struct EndpointDescriptor {
    pub desc_length: u8,
    pub desc_type: u8,
    pub endpoint_address: u8,
    pub attributes: u8,
    pub max_packet_size: u16,
    pub interval: u8,
}

impl EndpointDescriptor {
    /// How many bytes the descriptor has.
    pub const SIZE: usize = 7;

    /// The descriptor as it lies in `s` from `i` on.
    pub open spec fn decoded(s: Seq<u8>, i: int) -> Self {
        EndpointDescriptor {
            desc_length: s[i],
            desc_type: s[i + 1],
            endpoint_address: s[i + 2],
            attributes: s[i + 3],
            max_packet_size: crate::bytes::le16(s, i + 4) as u16,
            interval: s[i + 6],
        }
    }

    /// The seven bytes of the descriptor.
    pub open spec fn bytes(self) -> Seq<u8> {
        seq![self.desc_length, self.desc_type, self.endpoint_address, self.attributes]
            + crate::bytes::le16_bytes(self.max_packet_size) + seq![self.interval]
    }

    /// Reads the descriptor from `data`, from `i` on, if that is long enough.
    pub fn read_at(data: &[u8], i: usize) -> (r: Result<Self, &'static str>)
        requires
            i <= data@.len(),
        ensures
            r == (if data@.len() - i >= 7 {
                Ok::<Self, &'static str>(Self::decoded(data@, i as int))
            } else {
                Err("data is too short")
            }),
    {
        if data.len() - i < Self::SIZE {
            return Err("data is too short");
        }
        Ok(
            EndpointDescriptor {
                desc_length: data[i],
                desc_type: data[i + 1],
                endpoint_address: data[i + 2],
                attributes: data[i + 3],
                max_packet_size: read_le16(data, i + 4),
                interval: data[i + 6],
            },
        )
    }

    /// A bulk endpoint: the low two bits of the attributes are two.
    pub open spec fn bulk(self) -> bool {
        self.attributes % 4 == 2
    }

    /// An endpoint towards the host: the address's top bit is set.
    pub open spec fn inward(self) -> bool {
        self.endpoint_address >= 0x80
    }

    /// The index of the endpoint's context: twice the endpoint number, plus one towards
    /// the host.
    pub open spec fn dci(self) -> int {
        2 * (self.endpoint_address as int % 16) + if self.inward() {
            1int
        } else {
            0
        }
    }

    /// Whether this is a bulk endpoint.
    pub fn is_bulk(&self) -> (r: bool)
        ensures
            r == self.bulk(),
    {
        let a: u8 = self.attributes;
        assert(a & 0x03 == 2 <==> a % 4 == 2) by (bit_vector);
        a & 0x03 == 2
    }

    /// Whether this is an endpoint towards the host.
    pub fn is_in(&self) -> (r: bool)
        ensures
            r == self.inward(),
    {
        let a: u8 = self.endpoint_address;
        assert(a & 0x80 != 0 <==> a >= 0x80) by (bit_vector);
        a & 0x80 != 0
    }

    /// The index of the endpoint's context.
    pub fn context_index(&self) -> (r: usize)
        ensures
            r == self.dci(),
            r <= 31,
    {
        let a: u8 = self.endpoint_address;
        assert(a & 0x0f == a % 16) by (bit_vector);
        let ep_num: u8 = a & 0x0f;
        if self.is_in() {
            (ep_num * 2 + 1) as usize
        } else {
            (ep_num * 2) as usize
        }
    }
}

/// A descriptor of one of the kinds that follow a configuration.
#[derive(Debug, Copy, Clone, PartialEq, Eq, Structural)]
pub enum UsbDescriptor {
    Config(ConfigDescriptor),
    Interface(InterfaceDescriptor),
    Endpoint(EndpointDescriptor),
    Unknown { desc_len: u8, desc_type: u8 },
}

/// The descriptor that lies in `s` from `i` on, unless it is of a known kind and cut off.
pub open spec fn descriptor_at(s: Seq<u8>, i: int) -> Option<UsbDescriptor> {
    let rest = s.len() - i;
    if s[i + 1] == UsbDescriptorType::Config.code() {
        if rest >= 9 {
            Some(UsbDescriptor::Config(ConfigDescriptor::decoded(s, i)))
        } else {
            None
        }
    } else if s[i + 1] == UsbDescriptorType::Interface.code() {
        if rest >= 9 {
            Some(UsbDescriptor::Interface(InterfaceDescriptor::decoded(s, i)))
        } else {
            None
        }
    } else if s[i + 1] == UsbDescriptorType::Endpoint.code() {
        if rest >= 7 {
            Some(UsbDescriptor::Endpoint(EndpointDescriptor::decoded(s, i)))
        } else {
            None
        }
    } else {
        Some(UsbDescriptor::Unknown { desc_len: s[i], desc_type: s[i + 1] })
    }
}

/// What comes next when going through `s` at `i`, and where to go on: a descriptor is as long
/// as its first byte says, whatever its kind; where none comes, the place stays.
pub open spec fn step_from(s: Seq<u8>, i: int) -> (Option<UsbDescriptor>, int) {
    if i >= s.len() {
        (None, i)
    } else {
        match descriptor_at(s, i) {
            Some(d) => (Some(d), i + s[i]),
            None => (None, i),
        }
    }
}

/// The place after `n` steps from `i`.
pub open spec fn place_after(s: Seq<u8>, i: int, n: nat) -> int
    decreases n,
{
    if n == 0 {
        i
    } else {
        step_from(s, place_after(s, i, (n - 1) as nat)).1
    }
}

/// Goes through the descriptors in a buffer.
#[derive(Debug)]
pub struct DescriptorIterator<'a> {
    pub buf: &'a [u8],
    pub index: usize,
}

impl<'a> DescriptorIterator<'a> {
    /// Goes through `buf` from its start.
    pub fn new(buf: &'a [u8]) -> (r: Self)
        ensures
            r.buf@ == buf@,
            r.index == 0,
    {
        DescriptorIterator { buf, index: 0 }
    }

    /// The next descriptor; none at the end, or where a descriptor is cut off. Each starts
    /// as many bytes after the one before it as that one's first byte says.
    pub fn next(&mut self) -> (r: Option<UsbDescriptor>)
        requires
            old(self).index < old(self).buf@.len() ==> old(self).index + 1 < old(self).buf@.len()
                && old(self).index + old(self).buf@[old(self).index as int] <= usize::MAX,
        ensures
            final(self).buf@ == old(self).buf@,
            (r, final(self).index as int) == step_from(old(self).buf@, old(self).index as int),
    {
        if self.index >= self.buf.len() {
            return None;
        }
        let i: usize = self.index;
        let desc_len: u8 = self.buf[i];
        let desc_type: u8 = self.buf[i + 1];
        let desc = if desc_type == UsbDescriptorType::Config.number() {
            match ConfigDescriptor::read_at(self.buf, i) {
                Ok(d) => UsbDescriptor::Config(d),
                Err(_) => {
                    return None;
                },
            }
        } else if desc_type == UsbDescriptorType::Interface.number() {
            match InterfaceDescriptor::read_at(self.buf, i) {
                Ok(d) => UsbDescriptor::Interface(d),
                Err(_) => {
                    return None;
                },
            }
        } else if desc_type == UsbDescriptorType::Endpoint.number() {
            match EndpointDescriptor::read_at(self.buf, i) {
                Ok(d) => UsbDescriptor::Endpoint(d),
                Err(_) => {
                    return None;
                },
            }
        } else {
            UsbDescriptor::Unknown { desc_len, desc_type }
        };
        self.index = i + desc_len as usize;
        Some(desc)
    }
}

/// How many bytes there are from `i` on.
pub open spec fn bytes_left(s: Seq<u8>, i: int) -> nat {
    if i < s.len() {
        (s.len() - i) as nat
    } else {
        0
    }
}

/// Whether going through the descriptors from `i` on comes to an end: none has the length
/// zero, and none is left with a single byte.
pub open spec fn walk_ends(s: Seq<u8>, i: int) -> bool
    decreases bytes_left(s, i),
{
    if i >= s.len() {
        true
    } else if i + 1 >= s.len() {
        false
    } else if descriptor_at(s, i) is None {
        true
    } else if s[i] == 0 {
        false
    } else {
        walk_ends(s, i + s[i])
    }
}

/// The descriptors from `i` on, where going through them comes to an end.
pub open spec fn walk(s: Seq<u8>, i: int) -> Seq<UsbDescriptor>
    decreases bytes_left(s, i),
{
    if i >= s.len() || i + 1 >= s.len() || s[i] == 0 {
        seq![]
    } else {
        match descriptor_at(s, i) {
            None => seq![],
            Some(d) => seq![d] + walk(s, i + s[i]),
        }
    }
}

/// All descriptors in `buf`; none where going through them would not come to an end.
pub fn collect_descriptors(buf: &[u8]) -> (r: Option<Vec<UsbDescriptor>>)
    requires
        buf@.len() + 255 <= usize::MAX,
    ensures
        r is Some <==> walk_ends(buf@, 0),
        r matches Some(v) ==> v@ == walk(buf@, 0),
{
    let mut iter = DescriptorIterator::new(buf);
    let mut out: Vec<UsbDescriptor> = Vec::new();
    while iter.index < buf.len()
        invariant
            iter.buf@ == buf@,
            buf@.len() + 255 <= usize::MAX,
            walk_ends(buf@, 0) == walk_ends(buf@, iter.index as int),
            walk_ends(buf@, 0) ==> walk(buf@, 0) == out@ + walk(buf@, iter.index as int),
        decreases bytes_left(buf@, iter.index as int),
    {
        let at: usize = iter.index;
        if at + 1 >= buf.len() {
            return None;
        }
        match iter.next() {
            None => {
                assert(walk(buf@, 0) =~= out@);
                return Some(out);
            },
            Some(d) => {
                if iter.index == at {
                    return None;
                }
                assert(out@.push(d) + walk(buf@, iter.index as int) =~= out@ + (seq![d] + walk(
                    buf@,
                    iter.index as int,
                )));
                out.push(d);
            },
        }
    }
    assert(walk(buf@, iter.index as int) =~= seq![]);
    assert(out@ + walk(buf@, iter.index as int) =~= out@);
    Some(out)
}

/// A descriptor reads back as what was written, with its kind in its second byte.
pub proof fn law_descriptors_round_trip(
    device: UsbDeviceDescriptor,
    config: ConfigDescriptor,
    interface: InterfaceDescriptor,
    endpoint: EndpointDescriptor,
    rest: Seq<u8>,
)
    ensures
        device.bytes().len() == 18,
        config.bytes().len() == 9,
        interface.bytes().len() == 9,
        endpoint.bytes().len() == 7,
        UsbDeviceDescriptor::decoded(device.bytes() + rest, 0) == device,
        config.desc_type == 2 ==> descriptor_at(config.bytes() + rest, 0) == Some(
            UsbDescriptor::Config(config),
        ),
        interface.desc_type == 4 ==> descriptor_at(interface.bytes() + rest, 0) == Some(
            UsbDescriptor::Interface(interface),
        ),
        endpoint.desc_type == 5 ==> descriptor_at(endpoint.bytes() + rest, 0) == Some(
            UsbDescriptor::Endpoint(endpoint),
        ),
{
}

/// Going through a buffer, the first descriptor is followed by those that start where it
/// ends.
pub proof fn law_descriptors_follow_each_other(s: Seq<u8>, i: int)
    requires
        0 <= i,
        i + 1 < s.len(),
        s[i] > 0,
        descriptor_at(s, i) is Some,
    ensures
        walk(s, i).len() == 1 + walk(s, i + s[i]).len(),
        walk(s, i)[0] == descriptor_at(s, i).unwrap(),
        walk(s, i).drop_first() == walk(s, i + s[i]),
{
    assert(walk(s, i).drop_first() =~= walk(s, i + s[i]));
}

/// A step of the iterator that brings a descriptor goes on by the descriptor's own length
/// byte. One that brings none stays, so none comes later either, however often it is asked.
pub proof fn law_iterator_steps(s: Seq<u8>, i: int, n: nat)
    requires
        0 <= i,
        i >= s.len() || i + 2 <= s.len(),
    ensures
        step_from(s, i).0 is Some ==> i < s.len() && step_from(s, i).1 == i + s[i],
        step_from(s, i).0 is None ==> step_from(s, i).1 == i && place_after(s, i, n) == i
            && step_from(s, place_after(s, i, n)).0 is None,
    decreases n,
{
    if n > 0 {
        law_iterator_steps(s, i, (n - 1) as nat);
    }
}

/// The kinds of descriptor have the numbers one to five, in this order.
pub proof fn law_descriptor_kinds()
    ensures
        UsbDescriptorType::Device.code() == 1,
        UsbDescriptorType::Config.code() == 2,
        UsbDescriptorType::String.code() == 3,
        UsbDescriptorType::Interface.code() == 4,
        UsbDescriptorType::Endpoint.code() == 5,
{
}

/// Where a device's descriptor says what: words least significant byte first.
pub proof fn law_device_descriptor_fields(s: Seq<u8>, i: int)
    ensures
        ({
            let d = UsbDeviceDescriptor::decoded(s, i);
            &&& d.desc_length == s[i]
            &&& d.desc_type == s[i + 1]
            &&& d.version == s[i + 2] + 0x100 * s[i + 3]
            &&& d.device_class == s[i + 4]
            &&& d.device_subclass == s[i + 5]
            &&& d.device_protocol == s[i + 6]
            &&& d.max_packet_size == s[i + 7]
            &&& d.vendor_id == s[i + 8] + 0x100 * s[i + 9]
            &&& d.product_id == s[i + 10] + 0x100 * s[i + 11]
            &&& d.device_version == s[i + 12] + 0x100 * s[i + 13]
            &&& d.manufacturer_index == s[i + 14]
            &&& d.product_index == s[i + 15]
            &&& d.serial_idx == s[i + 16]
            &&& d.num_of_config == s[i + 17]
        }),
{
}

/// Different endpoints of a device have different context indexes: half the index is the
/// endpoint's number, the low four bits of its address, and the lowest bit of the index says
/// whether it is towards the host, as the highest bit of the address does.
pub proof fn law_context_indexes(a: EndpointDescriptor, b: EndpointDescriptor)
    ensures
        0 <= a.dci() <= 31,
        a.dci() / 2 == a.endpoint_address as int % 0x10,
        a.dci() % 2 == a.endpoint_address as int / 0x80,
        a.inward() <==> a.endpoint_address as int / 0x80 == 1,
        a.endpoint_address as int / 0x10 % 8 == 0 && b.endpoint_address as int / 0x10 % 8 == 0 ==> (
        a.dci() == b.dci() <==> a.endpoint_address == b.endpoint_address),
{
}

/// An endpoint is a bulk endpoint if and only if the low two bits of its attributes are two; an
/// interface is bulk-only mass storage with SCSI commands if and only if its class, subclass and
/// protocol are 8, 6 and 0x50.
pub proof fn law_bulk_and_storage(e: EndpointDescriptor, i: InterfaceDescriptor)
    ensures
        e.bulk() <==> (e.attributes - 2) % 4 == 0,
        i.bulk_storage() <==> i.interface_class == 8 && i.interface_subclass == 6
            && i.interface_protocol == 0x50,
{
}

/// A descriptor says what its bytes say: its kind as the second byte tells, and each field where
/// it lies; of a kind that is not known only its length and its kind are told.
pub open spec fn tells(d: UsbDescriptor, b: Seq<u8>) -> bool {
    if b[1] == 2 {
        d matches UsbDescriptor::Config(c) && {
            &&& c.desc_length == b[0] && c.desc_type == b[1]
            &&& c.total_length == b[2] + 0x100 * b[3]
            &&& c.num_of_interfaces == b[4]
            &&& c.config_value == b[5]
            &&& c.config_string_index == b[6]
            &&& c.attributes == b[7]
            &&& c.max_power == b[8]
        }
    } else if b[1] == 4 {
        d matches UsbDescriptor::Interface(f) && {
            &&& f.desc_length == b[0] && f.desc_type == b[1]
            &&& f.interface_number == b[2]
            &&& f.alt_setting == b[3]
            &&& f.num_of_endpoints == b[4]
            &&& f.interface_class == b[5]
            &&& f.interface_subclass == b[6]
            &&& f.interface_protocol == b[7]
            &&& f.interface_index == b[8]
        }
    } else if b[1] == 5 {
        d matches UsbDescriptor::Endpoint(e) && {
            &&& e.desc_length == b[0] && e.desc_type == b[1]
            &&& e.endpoint_address == b[2]
            &&& e.attributes == b[3]
            &&& e.max_packet_size == b[4] + 0x100 * b[5]
            &&& e.interval == b[6]
        }
    } else {
        d == UsbDescriptor::Unknown { desc_len: b[0], desc_type: b[1] }
    }
}

/// The bytes of a whole descriptor: at least two, the first of which says how many; and of a
/// known kind at least as many as that kind has.
pub open spec fn whole(b: Seq<u8>) -> bool {
    &&& 2 <= b.len() <= 255
    &&& b[0] == b.len()
    &&& b[1] == 2 || b[1] == 4 ==> b.len() >= 9
    &&& b[1] == 5 ==> b.len() >= 7
}

/// Pieces one after the other.
pub open spec fn joined(pieces: Seq<Seq<u8>>) -> Seq<u8>
    decreases pieces.len(),
{
    if pieces.len() == 0 {
        seq![]
    } else {
        pieces[0] + joined(pieces.drop_first())
    }
}

/// Going through whole descriptors that lie one after the other brings each of them, of whatever
/// kind, in their order, and comes to an end.
pub proof fn law_every_descriptor_is_found(pieces: Seq<Seq<u8>>)
    requires
        forall|k: int| 0 <= k < pieces.len() ==> whole(#[trigger] pieces[k]),
    ensures
        walk_ends(joined(pieces), 0),
        walk(joined(pieces), 0).len() == pieces.len(),
        forall|k: int|
            0 <= k < pieces.len() ==> tells(#[trigger] walk(joined(pieces), 0)[k], pieces[k]),
{
    lemma_found_from(seq![], pieces, seq![]);
    assert(seq![] + joined(pieces) + seq![] =~= joined(pieces));
}

/// What follows whole descriptors decides how going through them ends: a known kind that is cut
/// off ends it; a single byte, or a length of zero, lets it never end; a descriptor of an unknown
/// kind that claims more than there is comes out, and ends it.
pub proof fn law_what_follows_whole_descriptors(pieces: Seq<Seq<u8>>, rest: Seq<u8>)
    requires
        rest.len() > 0,
        forall|k: int| 0 <= k < pieces.len() ==> whole(#[trigger] pieces[k]),
    ensures
        ({
            let s = joined(pieces) + rest;
            let w = walk(s, 0);
            let known = rest[1] == 2 || rest[1] == 4 || rest[1] == 5;
            let size = if rest[1] == 5 {
                7int
            } else {
                9
            };
            let cut_off = known && rest.len() < size;
            &&& w.len() >= pieces.len()
            &&& forall|k: int| 0 <= k < pieces.len() ==> tells(#[trigger] w[k], pieces[k])
            &&& rest.len() == 1 ==> !walk_ends(s, 0)
            &&& rest.len() > 1 && cut_off ==> walk_ends(s, 0) && w.len() == pieces.len()
            &&& rest.len() > 1 && !cut_off && rest[0] == 0 ==> !walk_ends(s, 0)
            &&& rest.len() > 1 && !known && rest[0] >= rest.len() ==> walk_ends(s, 0) && w.len()
                == pieces.len() + 1 && w.last() == (UsbDescriptor::Unknown {
                desc_len: rest[0],
                desc_type: rest[1],
            })
        }),
{
    let s = joined(pieces) + rest;
    let at = joined(pieces).len() as int;
    lemma_found_from(seq![], pieces, rest);
    assert(seq![] + joined(pieces) + rest =~= s);
    assert(s[at] == rest[0]);
    assert(rest.len() > 1 ==> s[at + 1] == rest[1]);
    if rest.len() > 1 && rest[0] >= rest.len() {
        assert(walk(s, at + s[at]) =~= seq![]);
        assert(walk_ends(s, at + s[at]));
        if descriptor_at(s, at) is Some {
            assert(walk(s, at) =~= seq![descriptor_at(s, at).unwrap()]);
        }
    }
}

/// Going through whole descriptors that lie between other bytes: they come out, and then what
/// comes after them does.
proof fn lemma_found_from(before: Seq<u8>, pieces: Seq<Seq<u8>>, rest: Seq<u8>)
    requires
        forall|k: int| 0 <= k < pieces.len() ==> whole(#[trigger] pieces[k]),
    ensures
        ({
            let s = before + joined(pieces) + rest;
            let i = before.len() as int;
            let at = i + joined(pieces).len();
            &&& walk_ends(s, i) == walk_ends(s, at)
            &&& walk(s, i).len() == pieces.len() + walk(s, at).len()
            &&& forall|k: int| 0 <= k < pieces.len() ==> tells(#[trigger] walk(s, i)[k], pieces[k])
            &&& walk(s, at).len() > 0 ==> walk(s, i).last() == walk(s, at).last()
        }),
    decreases pieces.len(),
{
    let s = before + joined(pieces) + rest;
    let i = before.len() as int;
    if pieces.len() > 0 {
        let b = pieces[0];
        let more = pieces.drop_first();
        assert forall|k: int| 0 <= k < more.len() implies whole(#[trigger] more[k]) by {
            assert(more[k] == pieces[k + 1]);
        }
        assert(s =~= (before + b) + joined(more) + rest);
        lemma_found_from(before + b, more, rest);
        assert(whole(b));
        assert forall|j: int| 0 <= j < b.len() implies s[i + j] == b[j] by {}
        assert(s[i] == b[0] && s[i + 1] == b[1]);
        assert(b.len() >= 7 ==> s[i + 2] == b[2] && s[i + 3] == b[3] && s[i + 4] == b[4] && s[i + 5]
            == b[5] && s[i + 6] == b[6]);
        assert(b.len() >= 9 ==> s[i + 7] == b[7] && s[i + 8] == b[8]);
        assert(descriptor_at(s, i) is Some && tells(descriptor_at(s, i).unwrap(), b));
        let w = walk(s, i);
        assert(w =~= seq![descriptor_at(s, i).unwrap()] + walk(s, i + s[i]));
        assert forall|k: int| 0 <= k < pieces.len() implies tells(#[trigger] w[k], pieces[k]) by {
            if k > 0 {
                assert(w[k] == walk(s, i + s[i])[k - 1]);
                assert(more[k - 1] == pieces[k]);
            }
        }
    }
}

/// A descriptor of a known kind is cut off where fewer bytes are left than it has: nine for a
/// configuration or an interface, seven for an endpoint. No other is.
pub proof fn law_cut_off_descriptors(s: Seq<u8>, i: int)
    requires
        0 <= i,
        i + 1 < s.len(),
    ensures
        descriptor_at(s, i) is None <==> ((s[i + 1] == 2 || s[i + 1] == 4) && i + 9 > s.len()) || (
        s[i + 1] == 5 && i + 7 > s.len()),
{
}

/// Nothing is known of a device that was not asked yet: all of it is zero.
pub proof fn law_blank_device(i: int)
    requires
        0 <= i < 18,
    ensures
        UsbDeviceDescriptor::blank().bytes()[i] == 0,
{
}

} // verus!
