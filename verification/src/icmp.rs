//! Wire-format codec for ICMP echo messages: message construction, the
//! internet checksum, serialization to network byte order, and defensive
//! decoding of raw datagrams that carry a leading IPv4 header.

use vstd::prelude::*;

verus! {

use vstd::arithmetic::div_mod::lemma_fundamental_div_mod;
use vstd::arithmetic::div_mod::lemma_mod_add_multiples_vanish;
use vstd::arithmetic::div_mod::lemma_mod_equivalence;
use vstd::arithmetic::div_mod::lemma_mod_multiples_vanish;
use vstd::arithmetic::div_mod::lemma_small_mod;

/// Mathematical view of an ICMP echo message: the five header fields and
/// the payload as a sequence of bytes.
#[verifier::ext_equal]
pub ghost struct EchoView {
    pub icmp_type: u8,
    pub code: u8,
    pub checksum: u16,
    pub identifier: u16,
    pub sequence_number: u16,
    pub payload: Seq<u8>,
}

/// An ICMP echo message: an 8-byte header followed by the payload.
pub struct ICMPPacket {
    pub icmp_type: u8,
    pub code: u8,
    pub checksum: u16,
    pub identifier: u16,
    pub sequence_number: u16,
    pub payload: Vec<u8>,
}

impl View for ICMPPacket {
    type V = EchoView;

    open spec fn view(&self) -> EchoView {
        EchoView {
            icmp_type: self.icmp_type,
            code: self.code,
            checksum: self.checksum,
            identifier: self.identifier,
            sequence_number: self.sequence_number,
            payload: self.payload@,
        }
    }
}

/// The sum of a byte sequence read as big-endian 16-bit words; an odd
/// trailing byte is padded with a zero low byte for summation only.
pub open spec fn words_sum(b: Seq<u8>) -> int
    decreases b.len(),
{
    if b.len() == 0 {
        0
    } else if b.len() == 1 {
        (b[0] as int) * 0x100
    } else {
        (b[0] as int) * 0x100 + (b[1] as int) + words_sum(b.skip(2))
    }
}

/// One's-complement folding: add the carry out of bit 16 back into the low
/// 16 bits until none remains.
pub open spec fn fold_carry(s: int) -> int
    decreases s,
{
    if s < 0x10000 {
        s
    } else {
        fold_carry(s % 0x10000 + s / 0x10000)
    }
}

/// The sum of a message's header words with the checksum field as zero:
/// type and code as one word, then identifier, then sequence number.
pub open spec fn header_sum(v: EchoView) -> int {
    (v.icmp_type as int) * 0x100 + (v.code as int) + (v.identifier as int) + (
    v.sequence_number as int)
}

/// The full unfolded checksum input: header words (checksum as zero)
/// followed by the payload words.
pub open spec fn checksum_input_sum(v: EchoView) -> int {
    header_sum(v) + words_sum(v.payload)
}

/// The internet checksum of a message: the one's-complement of the folded
/// one's-complement sum of its words, the checksum field read as zero.
pub open spec fn checksum_of(v: EchoView) -> u16 {
    (0xFFFF - fold_carry(checksum_input_sum(v))) as u16
}

/// A 16-bit value as two bytes in network (big-endian) order.
pub open spec fn be_bytes(x: u16) -> Seq<u8> {
    seq![(x / 0x100) as u8, (x % 0x100) as u8]
}

/// The 8-byte wire header of a message: type, code, checksum, identifier
/// and sequence number, multi-byte fields big-endian.
pub open spec fn wire_header(v: EchoView) -> Seq<u8> {
    seq![v.icmp_type, v.code] + be_bytes(v.checksum) + be_bytes(v.identifier) + be_bytes(
        v.sequence_number,
    )
}

/// The full wire form of a message: the 8-byte header followed by the raw
/// payload bytes.
pub open spec fn wire_bytes(v: EchoView) -> Seq<u8> {
    wire_header(v) + v.payload
}

/// The zero-valued sentinel message that decoding yields for a malformed
/// datagram: every field zero and an empty payload.
pub open spec fn sentinel() -> EchoView {
    EchoView {
        icmp_type: 0u8,
        code: 0u8,
        checksum: 0u16,
        identifier: 0u16,
        sequence_number: 0u16,
        payload: Seq::<u8>::empty(),
    }
}

/// The IPv4 header length in bytes announced by a datagram: the low four
/// bits of its first byte, a count of 32-bit words, times 4.
pub open spec fn ip_header_bytes(b: Seq<u8>) -> int {
    ((b[0] as int) % 16) * 4
}

/// A 16-bit value from two bytes in network (big-endian) order.
pub open spec fn word_from_be(hi: u8, lo: u8) -> u16 {
    ((hi as int) * 0x100 + (lo as int)) as u16
}

/// A datagram too short to hold even a minimal 20-byte IPv4 header.
pub open spec fn datagram_too_short(len: int) -> bool {
    len < 20
}

/// An announced IPv4 header length that is below the 20-byte minimum or
/// runs past the end of the datagram.
pub open spec fn bad_ip_header_len(b: Seq<u8>, len: int) -> bool {
    !datagram_too_short(len) && (ip_header_bytes(b) < 20 || ip_header_bytes(b) > len)
}

/// Too few bytes after the IPv4 header for the 8-byte ICMP header.
pub open spec fn icmp_header_truncated(b: Seq<u8>, len: int) -> bool {
    !datagram_too_short(len) && !bad_ip_header_len(b, len) && len - ip_header_bytes(b) < 8
}

/// A datagram that decodes to a message: long enough for an IPv4 header,
/// a consistent announced header length, and room for the ICMP header.
pub open spec fn well_formed_datagram(b: Seq<u8>, len: int) -> bool {
    !datagram_too_short(len) && !bad_ip_header_len(b, len) && !icmp_header_truncated(b, len)
}

/// What decoding the first `len` bytes of a raw datagram yields: the ICMP
/// header fields and payload found after the announced IPv4 header, or the
/// zero-valued sentinel where the datagram is malformed.
pub open spec fn decoded_view(b: Seq<u8>, len: int) -> EchoView {
    if well_formed_datagram(b, len) {
        let h = ip_header_bytes(b);
        EchoView {
            icmp_type: b[h],
            code: b[h + 1],
            checksum: word_from_be(b[h + 2], b[h + 3]),
            identifier: word_from_be(b[h + 4], b[h + 5]),
            sequence_number: word_from_be(b[h + 6], b[h + 7]),
            payload: b.subrange(h + 8, len),
        }
    } else {
        sentinel()
    }
}

/// A word sum is never negative.
pub proof fn lemma_words_sum_nonneg(b: Seq<u8>)
    ensures
        words_sum(b) >= 0,
    decreases b.len(),
{
    if b.len() >= 2 {
        lemma_words_sum_nonneg(b.skip(2));
    }
}

/// Folding never leaves the range of a 16-bit word and never grows the sum.
pub proof fn lemma_fold_carry_bounds(s: int)
    requires
        s >= 0,
    ensures
        0 <= fold_carry(s) < 0x10000,
        fold_carry(s) <= s,
    decreases s,
{
    if s >= 0x10000 {
        lemma_fold_carry_bounds(s % 0x10000 + s / 0x10000);
    }
}

/// Folding keeps the sum's remainder modulo 0xFFFF: dropping a carry out
/// of bit 16 and adding 1 back changes the sum by a multiple of 0xFFFF.
pub proof fn lemma_fold_carry_congruent(s: int)
    requires
        s >= 0,
    ensures
        fold_carry(s) % 0xFFFF == s % 0xFFFF,
    decreases s,
{
    if s >= 0x10000 {
        let s2 = s % 0x10000 + s / 0x10000;
        lemma_fundamental_div_mod(s, 0x10000);
        assert(s == 0xFFFF * (s / 0x10000) + s2);
        lemma_mod_multiples_vanish(s / 0x10000, s2, 0xFFFF);
        lemma_fold_carry_congruent(s2);
    }
}

/// Folding a positive sum yields a positive word.
pub proof fn lemma_fold_carry_positive(s: int)
    requires
        s > 0,
    ensures
        fold_carry(s) > 0,
    decreases s,
{
    if s >= 0x10000 {
        lemma_fundamental_div_mod(s, 0x10000);
        lemma_fold_carry_positive(s % 0x10000 + s / 0x10000);
    }
}

/// Splitting a 16-bit value into its big-endian bytes and reading them
/// back as a word is the identity.
pub proof fn lemma_word_from_be_bytes(x: u16)
    ensures
        word_from_be((x / 0x100) as u8, (x % 0x100) as u8) == x,
{
    lemma_fundamental_div_mod(x as int, 0x100);
}

/// The word sum of a message's wire form is its checksum input sum plus
/// whatever the checksum field holds.
pub proof fn lemma_wire_words_sum(v: EchoView)
    ensures
        words_sum(wire_bytes(v)) == checksum_input_sum(v) + v.checksum,
{
    let b = wire_bytes(v);
    let s1 = be_bytes(v.checksum) + be_bytes(v.identifier) + be_bytes(v.sequence_number)
        + v.payload;
    let s2 = be_bytes(v.identifier) + be_bytes(v.sequence_number) + v.payload;
    let s3 = be_bytes(v.sequence_number) + v.payload;
    assert(b.skip(2) =~= s1);
    assert(s1.skip(2) =~= s2);
    assert(s2.skip(2) =~= s3);
    assert(s3.skip(2) =~= v.payload);
    lemma_fundamental_div_mod(v.checksum as int, 0x100);
    lemma_fundamental_div_mod(v.identifier as int, 0x100);
    lemma_fundamental_div_mod(v.sequence_number as int, 0x100);
    assert(words_sum(b) == (v.icmp_type as int) * 0x100 + (v.code as int) + words_sum(s1));
    assert(words_sum(s1) == (v.checksum as int) + words_sum(s2));
    assert(words_sum(s2) == (v.identifier as int) + words_sum(s3));
    assert(words_sum(s3) == (v.sequence_number as int) + words_sum(v.payload));
}

/// Law: for any message whose checksum field holds the computed internet
/// checksum, summing its full wire form as big-endian 16-bit words with
/// one's-complement folding yields 0xFFFF.
pub proof fn lemma_checksum_self_consistency(v: EchoView)
    requires
        v.checksum == checksum_of(v),
    ensures
        fold_carry(words_sum(wire_bytes(v))) == 0xFFFF,
{
    let u = checksum_input_sum(v);
    lemma_words_sum_nonneg(v.payload);
    lemma_fold_carry_bounds(u);
    let f = fold_carry(u);
    assert(v.checksum == 0xFFFF - f);

    lemma_wire_words_sum(v);
    let t = words_sum(wire_bytes(v));
    assert(t == u + 0xFFFF - f);

    // t differs from u - f, a multiple of 0xFFFF, by exactly 0xFFFF.
    lemma_fold_carry_congruent(u);
    lemma_mod_equivalence(u, f, 0xFFFF);
    lemma_mod_add_multiples_vanish(u - f, 0xFFFF);
    assert(t % 0xFFFF == 0);

    lemma_fold_carry_bounds(t);
    lemma_fold_carry_positive(t);
    lemma_fold_carry_congruent(t);
    let ft = fold_carry(t);
    if ft < 0xFFFF {
        lemma_small_mod(ft as nat, 0xFFFF);
    }
    assert(ft == 0xFFFF);
}

/// Law: decoding a serialized message behind any synthetic 20-byte IPv4
/// header announcing IHL=5 reproduces every field and the payload exactly.
pub proof fn lemma_round_trip(v: EchoView, ip_header: Seq<u8>)
    requires
        ip_header.len() == 20,
        ip_header[0] as int % 16 == 5,
        v.payload.len() >= 16,
    ensures
        decoded_view(ip_header + wire_bytes(v), 28 + v.payload.len() as int) == v,
{
    let b = ip_header + wire_bytes(v);
    let len = 28 + v.payload.len() as int;
    assert(ip_header_bytes(b) == 20);
    assert(well_formed_datagram(b, len));
    lemma_word_from_be_bytes(v.checksum);
    lemma_word_from_be_bytes(v.identifier);
    lemma_word_from_be_bytes(v.sequence_number);
    assert(b.subrange(28, len) =~= v.payload);
    assert(decoded_view(b, len) =~= v);
}

/// Why a received datagram could not be decoded to an ICMP message.
#[derive(Clone, Copy, Debug, PartialEq, Eq, Structural)]
pub enum DecodeError {
    /// Fewer than 20 bytes: too short for even a minimal IPv4 header.
    TooShort,
    /// The announced IPv4 header length is below 20 bytes or exceeds the
    /// datagram length.
    BadIpHeaderLength,
    /// Fewer than 8 bytes remain after the IPv4 header.
    TruncatedIcmpHeader,
}

/// The length a payload is padded to when construction requests less:
/// requests below 16 bytes are raised to 16.
pub open spec fn padded_payload_len(requested: usize) -> int {
    if requested >= 16 {
        requested as int
    } else {
        16
    }
}

/// The message that construction yields: type and code selected by address
/// family, checksum zero, and a zero-filled payload of the padded length.
pub open spec fn built_view(
    is_ipv4: bool,
    identifier: u16,
    sequence_number: u16,
    payload_size: usize,
) -> EchoView {
    EchoView {
        icmp_type: if is_ipv4 {
            8u8
        } else {
            128u8
        },
        code: 0u8,
        checksum: 0u16,
        identifier,
        sequence_number,
        payload: Seq::new(padded_payload_len(payload_size) as nat, |i: int| 0u8),
    }
}

impl ICMPPacket {
    /// The ICMP type/code pair for an echo request: (8, 0) over IPv4,
    /// (128, 0) over IPv6.
    pub fn get_packet_type(is_ipv4: bool) -> (r: (u8, u8))
        ensures
            r.0 == (if is_ipv4 { 8u8 } else { 128u8 }),
            r.1 == 0u8,
    {
        if is_ipv4 {
            (8, 0)
        } else {
            (128, 0)
        }
    }

    /// Builds a fresh echo request for the given address family, with the
    /// checksum still zero and a zero-filled payload of at least 16 bytes.
    pub fn new(
        is_ipv4: bool,
        identifier: u16,
        sequence_number: u16,
        payload_size: usize,
    ) -> (r: Self)
        ensures
            r@ == built_view(is_ipv4, identifier, sequence_number, payload_size),
    {
        let (icmp_type, code) = Self::get_packet_type(is_ipv4);

        // Ensure a minimum payload size to accommodate standard ping behavior.
        let padded_size: usize = if payload_size < 16 {
            16
        } else {
            payload_size
        };
        let mut payload: Vec<u8> = Vec::new();
        while payload.len() < padded_size
            invariant
                payload@.len() <= padded_size,
                forall|i: int| 0 <= i < payload@.len() ==> payload@[i] == 0u8,
            decreases padded_size - payload.len(),
        {
            payload.push(0);
        }

        let r = ICMPPacket {
            icmp_type,
            code,
            checksum: 0,  // Checksum is calculated later
            identifier,
            sequence_number,
            payload,
        };
        proof {
            assert(r@ =~= built_view(is_ipv4, identifier, sequence_number, payload_size));
        }
        r
    }

    /// The internet checksum of this message, the checksum field read as
    /// zero regardless of what it currently holds.
    fn checksum_value(&self) -> (c: u16)
        requires
            self.payload@.len() <= 0xFFFF,
        ensures
            c == checksum_of(self@),
    {
        let mut sum: u32 = (self.icmp_type as u32) * 0x100 + (self.code as u32) + (
        self.identifier as u32) + (self.sequence_number as u32);

        proof {
            assert(self.payload@.skip(0) =~= self.payload@);
        }
        let mut i: usize = 0;
        while i < self.payload.len()
            invariant
                self.payload@.len() <= 0xFFFF,
                i <= self.payload@.len(),
                sum as int + words_sum(self.payload@.skip(i as int)) == checksum_input_sum(
                    self@,
                ),
                sum as int <= 3 * 0xFFFF + (i as int) * 0xFF00,
            decreases self.payload@.len() - i,
        {
            let high = self.payload[i] as u32;
            if i + 1 < self.payload.len() {
                let low = self.payload[i + 1] as u32;
                proof {
                    assert(self.payload@.skip(i as int).skip(2) =~= self.payload@.skip(
                        i as int + 2,
                    ));
                }
                sum = sum + high * 0x100 + low;
                i = i + 2;
            } else {
                proof {
                    assert(self.payload@.skip(i as int).len() == 1);
                }
                sum = sum + high * 0x100;
                i = i + 1;
            }
        }
        proof {
            assert(self.payload@.skip(self.payload@.len() as int) =~= Seq::<u8>::empty());
        }

        // Fold the 32-bit sum to 16 bits with end-around carry.
        let ghost total: int = sum as int;
        while sum >> 16 != 0
            invariant
                fold_carry(sum as int) == fold_carry(total),
            decreases sum,
        {
            proof {
                assert((sum >> 16) as int == sum as int / 0x10000) by (bit_vector);
                assert((sum & 0xFFFF) as int == sum as int % 0x10000) by (bit_vector);
            }
            sum = (sum & 0xFFFF) + (sum >> 16);
        }
        proof {
            assert((sum >> 16) as int == sum as int / 0x10000) by (bit_vector);
            assert(sum as int == fold_carry(total));
        }

        0xFFFF - (sum as u16)
    }

    /// Computes the internet checksum over the other header fields and the
    /// payload and writes it into the checksum field, which must still be
    /// zero from construction.
    pub fn calculate_checksum(&mut self)
        requires
            old(self).checksum == 0,
            old(self).payload@.len() <= 0xFFFF,
        ensures
            final(self)@ == (EchoView { checksum: checksum_of(old(self)@), ..old(self)@ }),
    {
        let c = self.checksum_value();
        self.checksum = c;
        proof {
            assert(self@ =~= (EchoView { checksum: checksum_of(old(self)@), ..old(self)@ }));
        }
    }

    /// Serializes the message to its wire form: the 8-byte header in
    /// network byte order followed by the payload.
    pub fn serialize(&self) -> (r: Vec<u8>)
        ensures
            r@ == wire_bytes(self@),
    {
        let mut packet_bytes: Vec<u8> = Vec::new();

        packet_bytes.push(self.icmp_type);
        packet_bytes.push(self.code);
        packet_bytes.push((self.checksum / 0x100) as u8);
        packet_bytes.push((self.checksum % 0x100) as u8);
        packet_bytes.push((self.identifier / 0x100) as u8);
        packet_bytes.push((self.identifier % 0x100) as u8);
        packet_bytes.push((self.sequence_number / 0x100) as u8);
        packet_bytes.push((self.sequence_number % 0x100) as u8);
        proof {
            assert(packet_bytes@ =~= wire_header(self@));
        }

        let mut i: usize = 0;
        while i < self.payload.len()
            invariant
                i <= self.payload@.len(),
                packet_bytes@ == wire_header(self@) + self.payload@.take(i as int),
            decreases self.payload@.len() - i,
        {
            packet_bytes.push(self.payload[i]);
            proof {
                assert(wire_header(self@) + self.payload@.take(i as int + 1) =~= (wire_header(
                    self@,
                ) + self.payload@.take(i as int)).push(self.payload@[i as int]));
            }
            i = i + 1;
        }
        proof {
            assert(packet_bytes@ =~= wire_bytes(self@));
        }
        packet_bytes
    }

    /// Decodes the first `len` bytes of a raw datagram, reporting exactly
    /// why a malformed one is rejected.
    pub fn try_deserialize(bytes: &[u8], len: usize) -> (r: Result<Self, DecodeError>)
        requires
            len <= bytes@.len(),
        ensures
            r is Ok <==> well_formed_datagram(bytes@, len as int),
            r is Ok ==> r->Ok_0@ == decoded_view(bytes@, len as int),
            r == Result::<Self, DecodeError>::Err(DecodeError::TooShort) <==> datagram_too_short(
                len as int,
            ),
            r == Result::<Self, DecodeError>::Err(DecodeError::BadIpHeaderLength)
                <==> bad_ip_header_len(bytes@, len as int),
            r == Result::<Self, DecodeError>::Err(DecodeError::TruncatedIcmpHeader)
                <==> icmp_header_truncated(bytes@, len as int),
    {
        // Check if the buffer is too short to even contain an IP header
        if len < 20 {
            return Err(DecodeError::TooShort);
        }

        // The first byte holds the version in its high four bits and the
        // header length, in 32-bit words, in its low four bits.
        let b0 = bytes[0];
        proof {
            assert(b0 & 0x0F == b0 % 16) by (bit_vector);
        }
        let ip_header_len = ((b0 & 0x0F) as usize) * 4;

        if ip_header_len < 20 || ip_header_len > len {
            return Err(DecodeError::BadIpHeaderLength);
        }

        // The ICMP message starts right after the IP header; its own
        // header is 8 bytes.
        let icmp_start_index = ip_header_len;
        if len - icmp_start_index < 8 {
            return Err(DecodeError::TruncatedIcmpHeader);
        }

        let icmp_type = bytes[icmp_start_index];
        let code = bytes[icmp_start_index + 1];
        let checksum = (bytes[icmp_start_index + 2] as u16) * 0x100 + (bytes[icmp_start_index
            + 3] as u16);
        let identifier = (bytes[icmp_start_index + 4] as u16) * 0x100 + (bytes[icmp_start_index
            + 5] as u16);
        let sequence_number = (bytes[icmp_start_index + 6] as u16) * 0x100
            + (bytes[icmp_start_index + 7] as u16);

        let mut payload: Vec<u8> = Vec::new();
        let mut i: usize = icmp_start_index + 8;
        while i < len
            invariant
                len <= bytes@.len(),
                icmp_start_index + 8 <= i <= len,
                payload@ == bytes@.subrange(icmp_start_index + 8, i as int),
            decreases len - i,
        {
            payload.push(bytes[i]);
            proof {
                assert(bytes@.subrange(icmp_start_index + 8, i as int + 1) =~= bytes@.subrange(
                    icmp_start_index + 8,
                    i as int,
                ).push(bytes@[i as int]));
            }
            i = i + 1;
        }

        let p = ICMPPacket { icmp_type, code, checksum, identifier, sequence_number, payload };
        proof {
            assert(p@ =~= decoded_view(bytes@, len as int));
        }
        Ok(p)
    }

    /// Decodes the first `len` bytes of a raw datagram, degrading to the
    /// zero-valued sentinel message where the datagram is malformed.
    pub fn deserialize(bytes: &[u8], len: usize) -> (r: Self)
        requires
            len <= bytes@.len(),
        ensures
            r@ == decoded_view(bytes@, len as int),
    {
        match Self::try_deserialize(bytes, len) {
            Ok(p) => p,
            Err(_) => {
                let p = ICMPPacket {
                    icmp_type: 0,
                    code: 0,
                    checksum: 0,
                    identifier: 0,
                    sequence_number: 0,
                    payload: Vec::new(),
                };
                proof {
                    assert(p@ =~= sentinel());
                }
                p
            },
        }
    }
}

} // verus!
