//! The virtual network device of a machine.

use vstd::prelude::*;

verus! {

/// The IP-layer MTU of the guest's network device.
pub const NETWORK_MTU: i64 = 1500;

/// One end of a datagram socket pair that carries Ethernet frames.
#[derive(Debug, Clone, Copy)]
pub struct FileHandleNetworkAttachment {
    fd: i32,
    mtu: i64,
}

impl FileHandleNetworkAttachment {
    /// The descriptor of the socket.
    pub closed spec fn fd(self) -> i32 {
        self.fd
    }

    /// The IP-layer MTU.
    pub closed spec fn mtu(self) -> i64 {
        self.mtu
    }

    /// An attachment to a connected datagram socket.
    pub fn new(fd: i32, mtu: i64) -> (r: Self)
        ensures
            r.fd() == fd,
            r.mtu() == mtu,
    {
        FileHandleNetworkAttachment { fd, mtu }
    }
}

/// A hardware address.
#[derive(Debug, Clone, Copy)]
pub struct MACAddress {
    bytes: [u8; 6],
}

impl View for MACAddress {
    type V = Seq<u8>;

    closed spec fn view(&self) -> Seq<u8> {
        self.bytes@
    }
}

/// Some bytes as a locally administered unicast address: the two low bits of the
/// first byte are fixed, and the rest stays.
pub open spec fn local_address(random: Seq<u8>) -> Seq<u8> {
    random.update(0, (random[0] & 0xFC) | 0x02)
}

/// Whether an address is locally administered and names a single station.
pub open spec fn is_local_unicast(address: Seq<u8>) -> bool {
    address.len() == 6 && address[0] & 0x03 == 0x02
}

/// Six bytes, whatever they are, make a locally administered unicast address.
pub proof fn law_local_address(random: Seq<u8>)
    requires
        random.len() == 6,
    ensures
        is_local_unicast(local_address(random)),
{
    let b = random[0];
    assert(((b & 0xFC) | 0x02) & 0x03 == 0x02u8) by (bit_vector);
}

/// But for the two bits that make it local and unicast, an address is the random bytes
/// that it was made of.
pub proof fn law_local_address_is_random(random: Seq<u8>, i: int)
    requires
        random.len() == 6,
        1 <= i < 6,
    ensures
        local_address(random).len() == 6,
        local_address(random)[i] == random[i],
        local_address(random)[0] & 0xfc == random[0] & 0xfc,
        local_address(random)[0] & 0x03 == 0x02,
{
    let b = random[0];
    assert(((b & 0xFC) | 0x02) & 0xfc == b & 0xfc) by (bit_vector);
    assert(((b & 0xFC) | 0x02) & 0x03 == 0x02u8) by (bit_vector);
}

impl MACAddress {
    /// The address that is all zeros.
    pub fn new() -> (r: Self)
        ensures
            r@ == seq![0u8, 0, 0, 0, 0, 0],
    {
        let r = MACAddress { bytes: [0, 0, 0, 0, 0, 0] };
        assert(r@ =~= seq![0u8, 0, 0, 0, 0, 0]);
        r
    }

    /// A locally administered address made of six random bytes.
    pub fn random_local(random: [u8; 6]) -> (r: Self)
        ensures
            r@ == local_address(random@),
    {
        let mut bytes = random;
        bytes[0] = (bytes[0] & 0xFC) | 0x02;
        let r = MACAddress { bytes };
        assert(r@ =~= local_address(random@));
        r
    }

    /// The bytes of this address.
    pub fn bytes(&self) -> (r: [u8; 6])
        ensures
            r@ == self@,
    {
        self.bytes
    }
}

impl Default for MACAddress {
    fn default() -> (r: Self)
        ensures
            r@ == seq![0u8, 0, 0, 0, 0, 0],
    {
        MACAddress::new()
    }
}

/// A network device, which may be attached to a socket.
#[derive(Debug, Clone, Copy)]
pub struct VirtioNetworkDevice {
    attachment: Option<FileHandleNetworkAttachment>,
    mac: MACAddress,
}

impl VirtioNetworkDevice {
    /// What the device is attached to.
    pub closed spec fn attachment(self) -> Option<FileHandleNetworkAttachment> {
        self.attachment
    }

    /// The hardware address.
    pub closed spec fn mac(self) -> Seq<u8> {
        self.mac@
    }

    /// A device without an attachment or an address.
    pub fn new() -> (r: Self)
        ensures
            r.attachment() is None,
            r.mac() == seq![0u8, 0, 0, 0, 0, 0],
    {
        VirtioNetworkDevice { attachment: None, mac: MACAddress::new() }
    }

    /// A device with an attachment and without an address.
    pub fn new_with_attachment(attachment: &FileHandleNetworkAttachment) -> (r: Self)
        ensures
            r.attachment() == Some(*attachment),
            r.mac() == seq![0u8, 0, 0, 0, 0, 0],
    {
        let mut r = VirtioNetworkDevice::new();
        r.set_attachment(attachment);
        r
    }

    /// Attaches the device.
    pub fn set_attachment(&mut self, attachment: &FileHandleNetworkAttachment)
        ensures
            final(self).attachment() == Some(*attachment),
            final(self).mac() == old(self).mac(),
    {
        self.attachment = Some(*attachment);
    }

    /// Sets the hardware address.
    pub fn set_mac_address(&mut self, address: &MACAddress)
        ensures
            final(self).mac() == address@,
            final(self).attachment() == old(self).attachment(),
    {
        self.mac = *address;
    }

    /// The descriptor of the socket that the device is attached to.
    pub fn fd(&self) -> (r: Option<i32>)
        ensures
            r == (match self.attachment() {
                Some(a) => Some(a.fd()),
                None => None,
            }),
    {
        match self.attachment {
            Some(a) => Some(a.fd),
            None => None,
        }
    }

    /// The bytes of the hardware address.
    pub fn mac_bytes(&self) -> (r: [u8; 6])
        ensures
            r@ == self.mac(),
    {
        self.mac.bytes()
    }
}

impl Default for VirtioNetworkDevice {
    fn default() -> (r: Self)
        ensures
            r.attachment() is None,
            r.mac() == seq![0u8, 0, 0, 0, 0, 0],
    {
        VirtioNetworkDevice::new()
    }
}

} // verus!
