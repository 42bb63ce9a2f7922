use vstd::prelude::*;

verus! {

/// The arithmetic sum of a byte sequence.
pub open spec fn byte_sum(s: Seq<u8>) -> int
    decreases s.len(),
{
    if s.len() == 0 {
        0
    } else {
        byte_sum(s.drop_last()) + s.last()
    }
}

/// The checksum byte for a sequence of non-checksum bytes: the value that
/// brings the total, modulo 256, to zero.
pub open spec fn checksum_for(s: Seq<u8>) -> u8 {
    ((256 - byte_sum(s) % 256) % 256) as u8
}

/// The 30 bytes of a 31-byte packet that the checksum covers, in wire order:
/// the header (bytes 0–2) followed by the payload (bytes 4–30).
pub open spec fn covered_bytes(p: Seq<u8>) -> Seq<u8> {
    p.subrange(0, 3) + p.subrange(4, 31)
}

/// The 31-byte wire packet built from 30 covered bytes: the header, the
/// checksum byte, then the payload.
pub open spec fn wire_packet(hp: Seq<u8>) -> Seq<u8> {
    hp.take(3) + seq![checksum_for(hp)] + hp.skip(3)
}

/// Whether the sum of all 31 bytes of a packet is zero modulo 256.
pub open spec fn checksum_valid(p: Seq<u8>) -> bool {
    byte_sum(p) % 256 == 0
}

/// Sum of the first `n` bytes is the sum of the first `n - 1` plus byte `n - 1`.
pub proof fn lemma_byte_sum_take(s: Seq<u8>, n: int)
    requires
        0 < n <= s.len(),
    ensures
        byte_sum(s.take(n)) == byte_sum(s.take(n - 1)) + s[n - 1],
{
    assert(s.take(n).drop_last() =~= s.take(n - 1));
}

/// The byte sum distributes over concatenation.
pub proof fn lemma_byte_sum_add(a: Seq<u8>, b: Seq<u8>)
    ensures
        byte_sum(a + b) == byte_sum(a) + byte_sum(b),
    decreases b.len(),
{
    if b.len() == 0 {
        assert(a + b =~= a);
    } else {
        assert((a + b).drop_last() =~= a + b.drop_last());
        lemma_byte_sum_add(a, b.drop_last());
    }
}

/// The sum of a packet is the sum of its covered bytes plus the checksum byte.
pub proof fn lemma_packet_sum_split(p: Seq<u8>)
    requires
        p.len() == 31,
    ensures
        byte_sum(p) == byte_sum(covered_bytes(p)) + p[3],
{
    let a = p.subrange(0, 3);
    let b = p.subrange(4, 31);
    let c = seq![p[3]];
    assert(c.drop_last() =~= Seq::<u8>::empty());
    assert(byte_sum(Seq::<u8>::empty()) == 0);
    assert(c.last() == p[3]);
    assert(byte_sum(c) == byte_sum(c.drop_last()) + c.last());
    assert(byte_sum(c) == p[3]);
    assert(p =~= (a + c) + b);
    lemma_byte_sum_add(a + c, b);
    lemma_byte_sum_add(a, c);
    lemma_byte_sum_add(a, b);
}

/// A packet assembled from 30 covered bytes always carries a valid checksum,
/// and its covered bytes are those it was assembled from.
pub proof fn lemma_wire_packet_valid(hp: Seq<u8>)
    requires
        hp.len() == 30,
    ensures
        wire_packet(hp).len() == 31,
        covered_bytes(wire_packet(hp)) == hp,
        wire_packet(hp)[3] == checksum_for(hp),
        checksum_valid(wire_packet(hp)),
{
    let p = wire_packet(hp);
    assert(covered_bytes(p) =~= hp);
    lemma_packet_sum_split(p);
}

/// Compute the checksum byte for an InfoFrame packet.
///
/// Takes the 30 bytes that make up the packet excluding the checksum itself
/// (i.e. the 3 header bytes followed by the 27 payload bytes) and returns
/// the value that, when placed at byte 3, makes the sum of all 31 bytes
/// equal to 0x00 mod 256.
pub fn compute_checksum(header_and_payload: &[u8; 30]) -> (r: u8)
    ensures
        r == checksum_for(header_and_payload@),
        (byte_sum(header_and_payload@) + r) % 256 == 0,
{
    let mut acc: u8 = 0;
    let mut i: usize = 0;
    while i < 30
        invariant
            0 <= i <= 30,
            acc as int == byte_sum(header_and_payload@.take(i as int)) % 256,
        decreases 30 - i,
    {
        proof {
            lemma_byte_sum_take(header_and_payload@, i as int + 1);
        }
        acc = ((acc as u16 + header_and_payload[i] as u16) % 256) as u8;
        i += 1;
    }
    assert(header_and_payload@.take(30) =~= header_and_payload@);
    ((256 - acc as u16) % 256) as u8
}

/// The sum, modulo 256, of all 31 bytes of a packet.
pub fn packet_sum(packet: &[u8; 31]) -> (r: u8)
    ensures
        r as int == byte_sum(packet@) % 256,
{
    let mut acc: u8 = 0;
    let mut i: usize = 0;
    while i < 31
        invariant
            0 <= i <= 31,
            acc as int == byte_sum(packet@.take(i as int)) % 256,
        decreases 31 - i,
    {
        proof {
            lemma_byte_sum_take(packet@, i as int + 1);
        }
        acc = ((acc as u16 + packet[i] as u16) % 256) as u8;
        i += 1;
    }
    assert(packet@.take(31) =~= packet@);
    acc
}

/// The checksum byte that would make the given packet verify: the checksum of
/// its header and payload bytes, ignoring the checksum byte it carries.
pub fn expected_checksum(packet: &[u8; 31]) -> (r: u8)
    ensures
        r == checksum_for(covered_bytes(packet@)),
{
    let mut hp = [0u8; 30];
    let mut i: usize = 0;
    while i < 30
        invariant
            0 <= i <= 30,
            forall|j: int| 0 <= j < i ==> hp@[j] == covered_bytes(packet@)[j],
        decreases 30 - i,
    {
        if i < 3 {
            hp[i] = packet[i];
        } else {
            hp[i] = packet[i + 1];
        }
        i += 1;
    }
    assert(hp@ =~= covered_bytes(packet@));
    compute_checksum(&hp)
}

/// Assemble a 31-byte wire packet from the 30 covered bytes: the checksum is
/// computed and placed at byte 3, the header before it and the payload after.
pub fn assemble_packet(hp: &[u8; 30]) -> (packet: [u8; 31])
    ensures
        packet@ == wire_packet(hp@),
        covered_bytes(packet@) == hp@,
        packet@[3] == checksum_for(hp@),
        checksum_valid(packet@),
{
    let checksum = compute_checksum(hp);
    let mut packet = [0u8; 31];
    let mut i: usize = 0;
    while i < 31
        invariant
            0 <= i <= 31,
            checksum == checksum_for(hp@),
            forall|j: int| 0 <= j < i && j < 3 ==> packet@[j] == hp@[j],
            forall|j: int| 4 <= j < i ==> packet@[j] == hp@[j - 1],
            i > 3 ==> packet@[3] == checksum,
        decreases 31 - i,
    {
        if i < 3 {
            packet[i] = hp[i];
        } else if i == 3 {
            packet[i] = checksum;
        } else {
            packet[i] = hp[i - 1];
        }
        i += 1;
    }
    assert(covered_bytes(packet@) =~= hp@);
    assert(packet@ =~= wire_packet(hp@));
    proof {
        lemma_packet_sum_split(packet@);
    }
    packet
}

} // verus!
