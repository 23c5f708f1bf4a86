use vstd::prelude::*;

verus! {

/// Length in bytes of an IPv4 address.
pub const IP_ADDRESS_LENGTH: u8 = 4;

/// Length in bytes of the fixed part of an IP header.
pub const IP_HEADER_MIN_LENGTH: usize = 20;

#[derive(Debug, Clone, Copy, PartialEq, Eq, Structural)]
pub enum IPVersion {
    IPv4,
    IPv6,
}

#[derive(Debug, Clone, Copy, PartialEq, Eq, Structural)]
pub enum IPProtocol {
    ICMP,
    TCP,
    UDP,
}

/// Why a byte sequence is not an IP packet.
#[derive(Debug, Clone, Copy, PartialEq, Eq, Structural)]
pub enum IPParseError {
    /// Fewer bytes than the header needs.
    Truncated,
    /// The version nibble is neither 4 nor 6.
    InvalidVersion,
    /// The protocol byte is none of ICMP, TCP, UDP.
    InvalidProtocol,
    /// The header length field is below the five words of the fixed header.
    InvalidHeaderLength,
}

/// The version that a version nibble names, if any.
pub open spec fn version_of(nibble: u8) -> Option<IPVersion> {
    if nibble == 4 {
        Some(IPVersion::IPv4)
    } else if nibble == 6 {
        Some(IPVersion::IPv6)
    } else {
        None
    }
}

/// The protocol that a protocol byte names, if any.
pub open spec fn protocol_of(b: u8) -> Option<IPProtocol> {
    if b == 1 {
        Some(IPProtocol::ICMP)
    } else if b == 6 {
        Some(IPProtocol::TCP)
    } else if b == 17 {
        Some(IPProtocol::UDP)
    } else {
        None
    }
}

/// Big-endian value of two bytes.
pub open spec fn be16(hi: u8, lo: u8) -> int {
    hi as int * 256 + lo as int
}

/// Big-endian value of four bytes.
pub open spec fn be32(b0: u8, b1: u8, b2: u8, b3: u8) -> int {
    b0 as int * 16777216 + b1 as int * 65536 + b2 as int * 256 + b3 as int
}

/// Bit `k` (0 is the least significant) of a byte.
pub open spec fn bit(b: u8, k: nat) -> bool {
    (b as int / pow2(k) as int) % 2 == 1
}

pub open spec fn pow2(k: nat) -> nat
    decreases k,
{
    if k == 0 {
        1
    } else {
        2 * pow2((k - 1) as nat)
    }
}

/// The error, if any, that parsing `d` as an IP header gives.
/// Checks come in this order: version, fixed length, protocol,
/// header length field, bytes available for the options.
pub open spec fn header_error(d: Seq<u8>) -> Option<IPParseError> {
    if d.len() == 0 {
        Some(IPParseError::Truncated)
    } else if version_of(d[0] / 16).is_none() {
        Some(IPParseError::InvalidVersion)
    } else if d.len() < 20 {
        Some(IPParseError::Truncated)
    } else if protocol_of(d[9]).is_none() {
        Some(IPParseError::InvalidProtocol)
    } else if d[0] % 16 < 5 {
        Some(IPParseError::InvalidHeaderLength)
    } else if d.len() < (d[0] % 16) * 4 {
        Some(IPParseError::Truncated)
    } else {
        None
    }
}

#[derive(Debug)]
pub struct IPHeader {
    pub version: IPVersion,
    pub ihl: u8,
    pub precedence: u8,
    pub delay: bool,
    pub throughput: bool,
    pub reliability: bool,
    pub total_length: u16,
    pub identification: u16,
    pub df: bool,
    pub mf: bool,
    pub fragment_offset: u16,
    pub ttl: u8,
    pub protocol: IPProtocol,
    pub header_checksum: u16,
    pub source_ip_address: u32,
    pub destination_ip_address: u32,
    pub options: Vec<u8>,
}

#[derive(Debug)]
pub struct IPPacket {
    pub header: IPHeader,
    pub data: Vec<u8>,
}

impl IPHeader {
    /// The header fields hold what the bytes of `d` say, field by field.
    pub open spec fn decodes(&self, d: Seq<u8>) -> bool {
        &&& header_error(d).is_none()
        &&& version_of(d[0] / 16) == Some(self.version)
        &&& self.ihl == d[0] % 16
        &&& self.precedence == d[1] / 32
        &&& self.delay == bit(d[1], 4)
        &&& self.throughput == bit(d[1], 3)
        &&& self.reliability == bit(d[1], 2)
        &&& self.total_length == be16(d[2], d[3])
        &&& self.identification == be16(d[4], d[5])
        &&& self.df == bit(d[6], 6)
        &&& self.mf == bit(d[6], 5)
        &&& self.fragment_offset == be16(d[6] % 32, d[7])
        &&& self.ttl == d[8]
        &&& protocol_of(d[9]) == Some(self.protocol)
        &&& self.header_checksum == be16(d[10], d[11])
        &&& self.source_ip_address == be32(d[12], d[13], d[14], d[15])
        &&& self.destination_ip_address == be32(d[16], d[17], d[18], d[19])
        &&& self.options@ == d.subrange(20, self.ihl * 4)
    }

    /// Parses the header at the start of `data`. No checksum is checked.
    pub fn parse(data: &[u8]) -> (r: Result<IPHeader, IPParseError>)
        ensures
            match r {
                Ok(h) => h.decodes(data@),
                Err(e) => header_error(data@) == Some(e),
            },
            r.is_ok() <==> header_error(data@).is_none(),
    {
        if data.len() == 0 {
            return Err(IPParseError::Truncated);
        }
        let b0 = data[0];
        let version = match b0 >> 4 {
            4 => IPVersion::IPv4,
            6 => IPVersion::IPv6,
            _ => {
                assert(b0 >> 4 == b0 / 16) by (bit_vector);
                return Err(IPParseError::InvalidVersion);
            },
        };
        assert(b0 >> 4 == b0 / 16) by (bit_vector);
        if data.len() < IP_HEADER_MIN_LENGTH {
            return Err(IPParseError::Truncated);
        }
        let protocol = match data[9] {
            1 => IPProtocol::ICMP,
            6 => IPProtocol::TCP,
            17 => IPProtocol::UDP,
            _ => return Err(IPParseError::InvalidProtocol),
        };
        let ihl = b0 & 0x0F;
        assert(b0 & 0x0F == b0 % 16) by (bit_vector);
        if ihl < 5 {
            return Err(IPParseError::InvalidHeaderLength);
        }
        let header_length = ihl as usize * 4;
        if data.len() < header_length {
            return Err(IPParseError::Truncated);
        }
        let b1 = data[1];
        let b6 = data[6];
        let precedence = b1 >> 5;
        let delay = (b1 >> 4) & 1 == 1;
        let throughput = (b1 >> 3) & 1 == 1;
        let reliability = (b1 >> 2) & 1 == 1;
        let df = (b6 >> 6) & 1 == 1;
        let mf = (b6 >> 5) & 1 == 1;
        let frag_hi = b6 & 0x1F;
        proof {
            lemma_byte_bits(b1);
            lemma_byte_bits(b6);
        }
        let mut options: Vec<u8> = Vec::new();
        let mut i: usize = IP_HEADER_MIN_LENGTH;
        while i < header_length
            invariant
                20 <= i <= header_length <= data@.len(),
                options@ == data@.subrange(20, i as int),
            decreases header_length - i,
        {
            options.push(data[i]);
            i = i + 1;
            assert(options@ =~= data@.subrange(20, i as int));
        }
        Ok(IPHeader {
            version,
            ihl,
            precedence,
            delay,
            throughput,
            reliability,
            total_length: be_u16(data[2], data[3]),
            identification: be_u16(data[4], data[5]),
            df,
            mf,
            fragment_offset: be_u16(frag_hi, data[7]),
            ttl: data[8],
            protocol,
            header_checksum: be_u16(data[10], data[11]),
            source_ip_address: be_u32(data[12], data[13], data[14], data[15]),
            destination_ip_address: be_u32(data[16], data[17], data[18], data[19]),
            options,
        })
    }

    /// Offset of the payload: the header length in bytes.
    pub fn data_offset(&self) -> (r: usize)
        ensures
            r == self.ihl * 4,
    {
        self.ihl as usize * 4
    }
}

impl IPPacket {
    /// Parses a whole packet: the header, then everything after it as payload.
    pub fn parse(data: Vec<u8>) -> (r: Result<IPPacket, IPParseError>)
        ensures
            match r {
                Ok(p) => p.header.decodes(data@) && p.data@ == data@.subrange(
                    p.header.ihl * 4,
                    data@.len() as int,
                ),
                Err(e) => header_error(data@) == Some(e),
            },
            r.is_ok() <==> header_error(data@).is_none(),
    {
        let header = IPHeader::parse(data.as_slice())?;
        let offset = header.data_offset();
        let mut payload: Vec<u8> = Vec::new();
        let mut i: usize = offset;
        while i < data.len()
            invariant
                offset <= i <= data@.len(),
                offset == header.ihl * 4,
                payload@ == data@.subrange(offset as int, i as int),
            decreases data@.len() - i,
        {
            payload.push(data[i]);
            i = i + 1;
            assert(payload@ =~= data@.subrange(offset as int, i as int));
        }
        Ok(IPPacket { header, data: payload })
    }
}

/// A first byte whose version nibble is neither 4 nor 6 (5, say) is
/// rejected as an invalid version, whatever follows it.
pub proof fn law_unknown_version_rejected(d: Seq<u8>)
    requires
        d.len() > 0,
        d[0] / 16 != 4,
        d[0] / 16 != 6,
    ensures
        header_error(d) == Some(IPParseError::InvalidVersion),
{
}

/// Big-endian `u16` from two bytes.
fn be_u16(hi: u8, lo: u8) -> (r: u16)
    ensures
        r == be16(hi, lo),
{
    hi as u16 * 256 + lo as u16
}

/// Big-endian `u32` from four bytes.
pub(crate) fn be_u32(b0: u8, b1: u8, b2: u8, b3: u8) -> (r: u32)
    ensures
        r == be32(b0, b1, b2, b3),
{
    b0 as u32 * 16777216 + b1 as u32 * 65536 + b2 as u32 * 256 + b3 as u32
}

/// The shifts and masks that the parser uses, read as arithmetic.
proof fn lemma_byte_bits(b: u8)
    ensures
        b >> 5 == b / 32,
        ((b >> 4) & 1 == 1) == bit(b, 4),
        ((b >> 3) & 1 == 1) == bit(b, 3),
        ((b >> 2) & 1 == 1) == bit(b, 2),
        ((b >> 6) & 1 == 1) == bit(b, 6),
        ((b >> 5) & 1 == 1) == bit(b, 5),
        b & 0x1F == b % 32,
{
    reveal_with_fuel(pow2, 7);
    assert(b >> 5 == b / 32) by (bit_vector);
    assert(((b >> 4) & 1 == 1) == ((b / 16) % 2 == 1)) by (bit_vector);
    assert(((b >> 3) & 1 == 1) == ((b / 8) % 2 == 1)) by (bit_vector);
    assert(((b >> 2) & 1 == 1) == ((b / 4) % 2 == 1)) by (bit_vector);
    assert(((b >> 6) & 1 == 1) == ((b / 64) % 2 == 1)) by (bit_vector);
    assert(((b >> 5) & 1 == 1) == ((b / 32) % 2 == 1)) by (bit_vector);
    assert(b & 0x1F == b % 32) by (bit_vector);
}

} // verus!
