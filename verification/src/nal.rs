//! H.264 NAL units: taken apart from their Annex-B form, and framed for an
//! MP4 sample.
//!
//! An encoder emits each NAL unit behind a start code. A sample in an MP4
//! file holds the same units behind their lengths instead (AVCC framing), and
//! the parameter sets stand in the track's header rather than in any sample.

use vstd::prelude::*;

verus! {

/// NAL unit type of a sequence parameter set.
pub const NAL_TYPE_SPS: u8 = 7;

/// NAL unit type of a picture parameter set.
pub const NAL_TYPE_PPS: u8 = 8;

/// `nal` without the Annex-B start code (`00 00 01` or `00 00 00 01`) it
/// begins with; `None` if it begins with neither, or holds nothing more.
pub open spec fn nal_payload(nal: Seq<u8>) -> Option<Seq<u8>> {
    if seq![0u8, 0, 0, 1].is_prefix_of(nal) && nal.len() > 4 {
        Some(nal.skip(4))
    } else if seq![0u8, 0, 1].is_prefix_of(nal) && nal.len() > 3 {
        Some(nal.skip(3))
    } else {
        None
    }
}

/// The type of a NAL unit: the low five bits of its first byte.
pub open spec fn nal_type(payload: Seq<u8>) -> u8 {
    payload[0] % 32
}

/// Strips a leading Annex-B start code (`00 00 01` or `00 00 00 01`) off
/// `nal`, returning its NAL unit type and the remaining payload.
pub fn split_annex_b_nal(nal: &[u8]) -> (split: Option<(u8, &[u8])>)
    ensures
        match nal_payload(nal@) {
            Some(payload) => split matches Some((ty, rest)) && rest@ == payload && ty == nal_type(
                payload,
            ),
            None => split is None,
        },
{
    let n: usize = nal.len();
    let payload: &[u8] = if n >= 4 && nal[0] == 0 && nal[1] == 0 && nal[2] == 0 && nal[3] == 1 {
        &nal[4..n]
    } else if n >= 3 && nal[0] == 0 && nal[1] == 0 && nal[2] == 1 {
        &nal[3..n]
    } else {
        return None;
    };
    if payload.len() == 0 {
        return None;
    }
    let head: u8 = payload[0];
    assert(head & 0x1F == head % 32) by (bit_vector);
    Some((head & 0x1F, payload))
}

/// `n` as four big-endian bytes, modulo 2^32.
pub open spec fn be32(n: nat) -> Seq<u8> {
    seq![
        (n / 0x100_0000 % 256) as u8,
        (n / 0x1_0000 % 256) as u8,
        (n / 0x100 % 256) as u8,
        (n % 256) as u8,
    ]
}

/// A NAL unit in AVCC framing: its length, then its bytes.
pub open spec fn avcc_frame(payload: Seq<u8>) -> Seq<u8> {
    be32(payload.len()) + payload
}

/// Whether `nal` is a NAL unit that belongs in a sample: well formed, and no
/// parameter set.
pub open spec fn is_sample_nal(nal: Seq<u8>) -> bool {
    nal_payload(nal) matches Some(payload) && nal_type(payload) != NAL_TYPE_SPS && nal_type(payload)
        != NAL_TYPE_PPS
}

/// The last NAL unit of type `ty` among `nals`.
pub open spec fn last_of_type(nals: Seq<Seq<u8>>, ty: u8) -> Option<Seq<u8>>
    decreases nals.len(),
{
    if nals.len() == 0 {
        None
    } else {
        match nal_payload(nals.last()) {
            Some(payload) if nal_type(payload) == ty => Some(payload),
            _ => last_of_type(nals.drop_last(), ty),
        }
    }
}

/// The NAL units among `nals` that belong in a sample, in order, start codes
/// stripped.
pub open spec fn sample_payloads(nals: Seq<Seq<u8>>) -> Seq<Seq<u8>>
    decreases nals.len(),
{
    if nals.len() == 0 {
        Seq::empty()
    } else if is_sample_nal(nals.last()) {
        sample_payloads(nals.drop_last()).push(nal_payload(nals.last())->0)
    } else {
        sample_payloads(nals.drop_last())
    }
}

/// The bytes of the sample that holds `payloads`: each of them in AVCC
/// framing, one after the other.
pub open spec fn avcc_bytes(payloads: Seq<Seq<u8>>) -> Seq<u8>
    decreases payloads.len(),
{
    if payloads.len() == 0 {
        Seq::empty()
    } else {
        avcc_bytes(payloads.drop_last()) + avcc_frame(payloads.last())
    }
}

/// The NAL units of one encoded picture, sorted by where they go: the
/// parameter sets into the track's header, the rest into the sample.
pub struct AccessUnit {
    pub sps: Option<Vec<u8>>,
    pub pps: Option<Vec<u8>>,
    pub sample: Vec<u8>,
}

/// What an [`AccessUnit`] holds.
pub struct AccessUnitView {
    pub sps: Option<Seq<u8>>,
    pub pps: Option<Seq<u8>>,
    pub sample: Seq<u8>,
}

/// The access unit that `nals` make up: the last parameter set of each kind,
/// and the sample made of all the others.
pub open spec fn access_unit(nals: Seq<Seq<u8>>) -> AccessUnitView {
    AccessUnitView {
        sps: last_of_type(nals, NAL_TYPE_SPS),
        pps: last_of_type(nals, NAL_TYPE_PPS),
        sample: avcc_bytes(sample_payloads(nals)),
    }
}

impl AccessUnitView {
    /// This unit with one more NAL unit, in Annex-B form, behind the others.
    pub open spec fn with_nal(self, nal: Seq<u8>) -> AccessUnitView {
        match nal_payload(nal) {
            None => self,
            Some(payload) => if nal_type(payload) == NAL_TYPE_SPS {
                AccessUnitView { sps: Some(payload), ..self }
            } else if nal_type(payload) == NAL_TYPE_PPS {
                AccessUnitView { pps: Some(payload), ..self }
            } else {
                AccessUnitView { sample: self.sample + avcc_frame(payload), ..self }
            },
        }
    }
}

impl View for AccessUnit {
    type V = AccessUnitView;

    open spec fn view(&self) -> AccessUnitView {
        AccessUnitView {
            sps: match self.sps {
                Some(sps) => Some(sps@),
                None => None,
            },
            pps: match self.pps {
                Some(pps) => Some(pps@),
                None => None,
            },
            sample: self.sample@,
        }
    }
}

impl AccessUnit {
    /// The unit of no NAL units at all.
    pub fn new() -> (unit: AccessUnit)
        ensures
            unit@ == access_unit(Seq::empty()),
    {
        AccessUnit { sps: None, pps: None, sample: Vec::new() }
    }

    /// Adds one NAL unit in Annex-B form. What has no start code, or nothing
    /// behind it, is passed over.
    pub fn push_nal(&mut self, nal: &[u8])
        ensures
            final(self)@ == old(self)@.with_nal(nal@),
    {
        if let Some((ty, payload)) = split_annex_b_nal(nal) {
            if ty == NAL_TYPE_SPS {
                self.sps = Some(copy_bytes(payload));
            } else if ty == NAL_TYPE_PPS {
                self.pps = Some(copy_bytes(payload));
            } else {
                push_be32(&mut self.sample, payload.len());
                push_bytes(&mut self.sample, payload);
                assert(self.sample@ == old(self).sample@ + avcc_frame(payload@));
            }
        }
    }
}

/// A copy of `bytes`.
fn copy_bytes(bytes: &[u8]) -> (copy: Vec<u8>)
    ensures
        copy@ == bytes@,
{
    let mut copy: Vec<u8> = Vec::new();
    push_bytes(&mut copy, bytes);
    assert(copy@ == bytes@);
    copy
}

/// Appends `bytes` to `out`.
pub(crate) fn push_bytes(out: &mut Vec<u8>, bytes: &[u8])
    ensures
        final(out)@ == old(out)@ + bytes@,
{
    out.extend_from_slice(bytes);
    assert(out@ == old(out)@ + bytes@);
}

/// Appends `n`, modulo 2^32, as four big-endian bytes to `out`.
fn push_be32(out: &mut Vec<u8>, n: usize)
    ensures
        final(out)@ == old(out)@ + be32(n as nat),
{
    let n: u64 = n as u64;
    out.push((n / 0x100_0000 % 256) as u8);
    out.push((n / 0x1_0000 % 256) as u8);
    out.push((n / 0x100 % 256) as u8);
    out.push((n % 256) as u8);
    assert(out@ == old(out)@ + be32(n as nat));
}

/// Adding a NAL unit to the unit that `nals` make up gives the unit that
/// they make up together.
pub proof fn lemma_access_unit_push(nals: Seq<Seq<u8>>, nal: Seq<u8>)
    ensures
        access_unit(nals.push(nal)) == access_unit(nals).with_nal(nal),
{
    let all = nals.push(nal);
    assert(all.drop_last() == nals);
    assert(all.last() == nal);
    if is_sample_nal(nal) {
        let payload = nal_payload(nal)->0;
        assert(sample_payloads(all).drop_last() == sample_payloads(nals));
        assert(sample_payloads(all).last() == payload);
    }
}

/// A NAL unit survives its start code: whichever of the two start codes is
/// put in front of a payload that is not empty, splitting gives the payload
/// back.
pub proof fn law_split_undoes_start_code(payload: Seq<u8>)
    requires
        payload.len() > 0,
    ensures
        nal_payload(seq![0u8, 0, 0, 1] + payload) == Some(payload),
        nal_payload(seq![0u8, 0, 1] + payload) == Some(payload),
{
    let long = seq![0u8, 0, 0, 1] + payload;
    let short = seq![0u8, 0, 1] + payload;
    assert(long.skip(4) == payload);
    assert(short.skip(3) == payload);
    assert(short[2] == 1);
    assert(long[2] == 0);
}

/// The number that four big-endian bytes stand for.
pub open spec fn from_be32(bytes: Seq<u8>) -> nat {
    (bytes[0] * 0x100_0000 + bytes[1] * 0x1_0000 + bytes[2] * 0x100 + bytes[3]) as nat
}

/// Reads a sample in AVCC framing back into its NAL units; `None` if a length
/// is cut short or runs past the end.
pub open spec fn parse_avcc(sample: Seq<u8>) -> Option<Seq<Seq<u8>>>
    decreases sample.len(),
{
    if sample.len() == 0 {
        Some(Seq::empty())
    } else if sample.len() < 4 || sample.len() < 4 + from_be32(sample) {
        None
    } else {
        let end = 4 + from_be32(sample) as int;
        match parse_avcc(sample.skip(end)) {
            Some(rest) => Some(seq![sample.subrange(4, end)] + rest),
            None => None,
        }
    }
}

proof fn lemma_be32_inverse(n: nat, tail: Seq<u8>)
    requires
        n < 0x1_0000_0000,
    ensures
        from_be32(be32(n) + tail) == n,
{
    let b = be32(n) + tail;
    assert(b[0] == n / 0x100_0000 % 256);
    assert(b[1] == n / 0x1_0000 % 256);
    assert(b[2] == n / 0x100 % 256);
    assert(b[3] == n % 256);
}

/// What lies in front of a frame does not change how the frame is read.
proof fn lemma_parse_avcc_append(sample: Seq<u8>, payload: Seq<u8>)
    requires
        parse_avcc(sample) is Some,
        payload.len() < 0x1_0000_0000,
    ensures
        parse_avcc(sample + avcc_frame(payload)) == Some(parse_avcc(sample)->0.push(payload)),
    decreases sample.len(),
{
    let frame = avcc_frame(payload);
    let all = sample + frame;
    if sample.len() == 0 {
        assert(all == be32(payload.len()) + payload);
        lemma_be32_inverse(payload.len(), payload);
        assert(all.subrange(4, 4 + payload.len() as int) == payload);
        assert(all.skip(4 + payload.len() as int) == Seq::<u8>::empty());
        assert(parse_avcc(Seq::<u8>::empty()) == Some(Seq::<Seq<u8>>::empty()));
        assert(parse_avcc(all) == Some(seq![payload] + Seq::<Seq<u8>>::empty()));
        assert(seq![payload] + Seq::<Seq<u8>>::empty() == Seq::<Seq<u8>>::empty().push(payload));
    } else {
        let end = 4 + from_be32(sample) as int;
        assert(from_be32(all) == from_be32(sample));
        assert(all.skip(end) == sample.skip(end) + frame);
        assert(all.subrange(4, end) == sample.subrange(4, end));
        lemma_parse_avcc_append(sample.skip(end), payload);
        let rest = parse_avcc(sample.skip(end))->0;
        assert(seq![sample.subrange(4, end)] + rest.push(payload) == (seq![
            sample.subrange(4, end),
        ] + rest).push(payload));
    }
}

/// A sample can be read back: parsing the AVCC framing of NAL units gives
/// the same units in the same order, as long as each is short enough for its
/// length to fit the four bytes in front of it.
pub proof fn law_avcc_round_trip(payloads: Seq<Seq<u8>>)
    requires
        forall|i: int| 0 <= i < payloads.len() ==> (#[trigger] payloads[i]).len() < 0x1_0000_0000,
    ensures
        parse_avcc(avcc_bytes(payloads)) == Some(payloads),
    decreases payloads.len(),
{
    if payloads.len() > 0 {
        law_avcc_round_trip(payloads.drop_last());
        assert(payloads[payloads.len() - 1].len() < 0x1_0000_0000);
        lemma_parse_avcc_append(avcc_bytes(payloads.drop_last()), payloads.last());
        assert(payloads.drop_last().push(payloads.last()) == payloads);
    }
}

proof fn lemma_sample_payloads_short(nals: Seq<Seq<u8>>)
    requires
        forall|i: int| 0 <= i < nals.len() ==> (#[trigger] nals[i]).len() < 0x1_0000_0000,
    ensures
        forall|i: int|
            0 <= i < sample_payloads(nals).len() ==> (#[trigger] sample_payloads(nals)[i]).len()
                < 0x1_0000_0000,
    decreases nals.len(),
{
    if nals.len() > 0 {
        let before = sample_payloads(nals.drop_last());
        lemma_sample_payloads_short(nals.drop_last());
        assert(nals[nals.len() - 1].len() < 0x1_0000_0000);
        assert forall|i: int| 0 <= i < sample_payloads(nals).len() implies (
        #[trigger] sample_payloads(nals)[i]).len() < 0x1_0000_0000 by {
            if i < before.len() {
                assert(sample_payloads(nals)[i] == before[i]);
            }
        }
    }
}

/// The sample of an access unit holds what the encoder made, and only that:
/// reading it back gives the NAL units that are no parameter sets, in order,
/// as long as each is short enough for its length to fit four bytes.
pub proof fn law_sample_holds_its_nals(nals: Seq<Seq<u8>>)
    requires
        forall|i: int| 0 <= i < nals.len() ==> (#[trigger] nals[i]).len() < 0x1_0000_0000,
    ensures
        parse_avcc(access_unit(nals).sample) == Some(sample_payloads(nals)),
{
    lemma_sample_payloads_short(nals);
    law_avcc_round_trip(sample_payloads(nals));
}

/// Whether `nal` is `payload` behind one of the two start codes.
pub open spec fn is_annex_b(nal: Seq<u8>, payload: Seq<u8>) -> bool {
    nal == seq![0u8, 0, 0, 1] + payload || nal == seq![0u8, 0, 1] + payload
}

/// Splitting takes off a start code and nothing else: what it leaves is not
/// empty, and one of the two start codes in front of it is what was split.
/// What begins with neither, or ends there, is no NAL unit.
pub proof fn law_split_takes_off_a_start_code(nal: Seq<u8>)
    ensures
        nal_payload(nal) matches Some(payload) ==> payload.len() > 0 && is_annex_b(nal, payload),
        nal_payload(nal) is None ==> forall|payload: Seq<u8>|
            payload.len() > 0 ==> !#[trigger] is_annex_b(nal, payload),
{
    if let Some(payload) = nal_payload(nal) {
        if seq![0u8, 0, 0, 1].is_prefix_of(nal) && nal.len() > 4 {
            assert(nal == seq![0u8, 0, 0, 1] + payload);
        } else {
            assert(nal == seq![0u8, 0, 1] + payload);
        }
    } else {
        assert forall|payload: Seq<u8>| payload.len() > 0 implies !#[trigger] is_annex_b(
            nal,
            payload,
        ) by {
            law_split_undoes_start_code(payload);
        }
    }
}

/// The type of a NAL unit leaves out the upper three bits of its first byte,
/// and nothing else.
pub proof fn law_type_is_five_bits(payload: Seq<u8>)
    requires
        payload.len() > 0,
    ensures
        nal_type(payload) < 32,
        (payload[0] - nal_type(payload)) % 32 == 0,
{
}

/// The length in front of a NAL unit is in network byte order: four bytes,
/// the first of which counts most. What does not fit them is left out at the
/// top.
pub proof fn law_length_is_big_endian(n: nat)
    ensures
        be32(n).len() == 4,
        be32(n)[0] * 0x100_0000 + be32(n)[1] * 0x1_0000 + be32(n)[2] * 0x100 + be32(n)[3] == n
            % 0x1_0000_0000,
{
    assert(n / 0x100_0000 % 256 * 0x100_0000 + n / 0x1_0000 % 256 * 0x1_0000 + n / 0x100 % 256
        * 0x100 + n % 256 == n % 0x1_0000_0000);
}

/// Every NAL unit that is no parameter set goes into the sample, whatever its
/// type and however long it is: behind what is there already, its length in
/// four bytes and then all of its own. The parameter sets stay as they were.
pub proof fn law_picture_nal_joins_the_sample(nals: Seq<Seq<u8>>, nal: Seq<u8>, payload: Seq<u8>)
    requires
        is_annex_b(nal, payload),
        payload.len() > 0,
        payload[0] % 32 != 7,
        payload[0] % 32 != 8,
    ensures
        ({
            let before = access_unit(nals);
            let after = access_unit(nals.push(nal));
            let n = before.sample.len() as int;
            &&& after.sps == before.sps
            &&& after.pps == before.pps
            &&& after.sample.len() == n + 4 + payload.len()
            &&& after.sample.take(n) == before.sample
            &&& after.sample.skip(n + 4) == payload
            &&& after.sample[n] * 0x100_0000 + after.sample[n + 1] * 0x1_0000 + after.sample[n + 2]
                * 0x100 + after.sample[n + 3] == payload.len() % 0x1_0000_0000
        }),
{
    law_split_undoes_start_code(payload);
    lemma_access_unit_push(nals, nal);
    law_length_is_big_endian(payload.len());
    let before = access_unit(nals);
    let after = access_unit(nals.push(nal));
    let n = before.sample.len() as int;
    assert(after.sample == before.sample + (be32(payload.len()) + payload));
    assert(after.sample.take(n) == before.sample);
    assert(after.sample.skip(n + 4) == payload);
}

/// A parameter set takes the place of the last one of its kind, and changes
/// nothing else.
pub proof fn law_parameter_set_takes_its_place(nals: Seq<Seq<u8>>, nal: Seq<u8>, payload: Seq<u8>)
    requires
        is_annex_b(nal, payload),
        payload.len() > 0,
    ensures
        payload[0] % 32 == 7 ==> access_unit(nals.push(nal)) == (AccessUnitView {
            sps: Some(payload),
            pps: access_unit(nals).pps,
            sample: access_unit(nals).sample,
        }),
        payload[0] % 32 == 8 ==> access_unit(nals.push(nal)) == (AccessUnitView {
            sps: access_unit(nals).sps,
            pps: Some(payload),
            sample: access_unit(nals).sample,
        }),
{
    law_split_undoes_start_code(payload);
    lemma_access_unit_push(nals, nal);
}

/// What is no NAL unit leaves no trace; and where there is none, the unit is
/// empty.
pub proof fn law_other_bytes_leave_no_trace(
    nals: Seq<Seq<u8>>,
    unit: AccessUnitView,
    nal: Seq<u8>,
)
    requires
        forall|payload: Seq<u8>|
            payload.len() > 0 ==> !#[trigger] is_annex_b(nal, payload),
    ensures
        access_unit(nals.push(nal)) == access_unit(nals),
        unit.with_nal(nal) == unit,
        access_unit(Seq::empty()) == (AccessUnitView {
            sps: None,
            pps: None,
            sample: Seq::empty(),
        }),
{
    law_split_takes_off_a_start_code(nal);
    lemma_access_unit_push(nals, nal);
}

/// Adding a NAL unit does the same to a unit whatever it holds already: only
/// what the NAL unit is decides.
pub proof fn law_adding_depends_on_the_nal_alone(
    unit: AccessUnitView,
    nal: Seq<u8>,
    payload: Seq<u8>,
)
    requires
        is_annex_b(nal, payload),
        payload.len() > 0,
    ensures
        unit.with_nal(nal).sps == if payload[0] % 32 == 7 {
            Some(payload)
        } else {
            unit.sps
        },
        unit.with_nal(nal).pps == if payload[0] % 32 == 8 {
            Some(payload)
        } else {
            unit.pps
        },
        unit.with_nal(nal).sample.len() == unit.sample.len() + if payload[0] % 32 == 7 || payload[0]
            % 32 == 8 {
            0
        } else {
            4 + payload.len()
        },
        unit.sample.is_prefix_of(unit.with_nal(nal).sample),
        payload[0] % 32 != 7 && payload[0] % 32 != 8 ==> {
            let n = unit.sample.len() as int;
            let sample = unit.with_nal(nal).sample;
            &&& sample.skip(n + 4) == payload
            &&& sample[n] * 0x100_0000 + sample[n + 1] * 0x1_0000 + sample[n + 2] * 0x100 + sample[n
                + 3] == payload.len() % 0x1_0000_0000
        },
{
    law_split_undoes_start_code(payload);
    if payload[0] % 32 != 7 && payload[0] % 32 != 8 {
        let n = unit.sample.len() as int;
        assert(unit.with_nal(nal).sample == unit.sample + (be32(payload.len()) + payload));
        assert(unit.with_nal(nal).sample.skip(n + 4) == payload);
        law_length_is_big_endian(payload.len());
    }
}

/// No picture is lost: the NAL units that are no parameter sets are all in the
/// sample, in order. Read back, the sample of the units up to one that is no
/// parameter set ends just before it, and there it stands in the whole.
pub proof fn law_every_picture_nal_reads_back(nals: Seq<Seq<u8>>, i: int, payload: Seq<u8>)
    requires
        forall|k: int| 0 <= k < nals.len() ==> (#[trigger] nals[k]).len() < 0x1_0000_0000,
        0 <= i < nals.len(),
        is_annex_b(nals[i], payload),
        payload.len() > 0,
        payload[0] % 32 != 7,
        payload[0] % 32 != 8,
    ensures
        parse_avcc(access_unit(nals.take(i)).sample) is Some,
        parse_avcc(access_unit(nals).sample) is Some,
        ({
            let before = parse_avcc(access_unit(nals.take(i)).sample)->0;
            let all = parse_avcc(access_unit(nals).sample)->0;
            &&& before.len() < all.len()
            &&& before.is_prefix_of(all)
            &&& all[before.len() as int] == payload
        }),
    decreases nals.len(),
{
    let init = nals.drop_last();
    law_split_undoes_start_code(payload);
    law_sample_holds_its_nals(nals);
    law_sample_holds_its_nals(nals.take(i));
    if i == nals.len() - 1 {
        assert(nals.take(i) == init);
    } else {
        assert(init.take(i) == nals.take(i));
        law_every_picture_nal_reads_back(init, i, payload);
        law_sample_holds_its_nals(init);
    }
}

/// Nor is anything added: there are as many NAL units in the sample as there
/// are NAL units that are no parameter sets.
pub proof fn law_as_many_nals_read_back(nals: Seq<Seq<u8>>)
    requires
        forall|k: int| 0 <= k < nals.len() ==> (#[trigger] nals[k]).len() < 0x1_0000_0000,
    ensures
        parse_avcc(access_unit(nals).sample) matches Some(read) && read.len() == nals.filter(
            |nal: Seq<u8>|
                exists|payload: Seq<u8>|
                    #![trigger is_annex_b(nal, payload)]
                    is_annex_b(nal, payload) && payload.len() > 0 && payload[0] % 32 != 7
                        && payload[0] % 32 != 8,
        ).len(),
    decreases nals.len(),
{
    let picture = |nal: Seq<u8>|
        exists|payload: Seq<u8>|
            #![trigger is_annex_b(nal, payload)]
            is_annex_b(nal, payload)
                && payload.len() > 0 && payload[0] % 32 != 7 && payload[0] % 32 != 8;
    law_sample_holds_its_nals(nals);
    reveal(Seq::filter);
    if nals.len() > 0 {
        let nal = nals.last();
        law_as_many_nals_read_back(nals.drop_last());
        law_sample_holds_its_nals(nals.drop_last());
        law_split_takes_off_a_start_code(nal);
        if picture(nal) {
            let payload = choose|payload: Seq<u8>|
                #![trigger is_annex_b(nal, payload)]
                is_annex_b(nal, payload)
                    && payload.len() > 0 && payload[0] % 32 != 7 && payload[0] % 32 != 8;
            law_split_undoes_start_code(payload);
        } else if is_sample_nal(nal) {
            let payload = nal_payload(nal)->0;
            assert(payload.len() > 0);
        }
    }
}

/// The parameter set that counts is the last of its type: one that no other
/// of its type comes behind is it.
pub proof fn law_last_parameter_set_counts(
    nals: Seq<Seq<u8>>,
    ty: u8,
    i: int,
    payload: Seq<u8>,
)
    requires
        0 <= i < nals.len(),
        is_annex_b(nals[i], payload),
        payload.len() > 0,
        payload[0] % 32 == ty,
        forall|k: int, other: Seq<u8>|
            #![trigger is_annex_b(nals[k], other)]
            i < k < nals.len() && other.len() > 0 && is_annex_b(nals[k], other) ==> other[0] % 32
                != ty,
    ensures
        last_of_type(nals, ty) == Some(payload),
    decreases nals.len(),
{
    law_split_undoes_start_code(payload);
    if i < nals.len() - 1 {
        let last = nals.last();
        law_split_takes_off_a_start_code(last);
        if let Some(other) = nal_payload(last) {
            assert(nals[nals.len() - 1] == last);
            assert(other.len() > 0);
            assert(other[0] % 32 != ty);
        }
        law_last_parameter_set_counts(nals.drop_last(), ty, i, payload);
    }
}

/// A parameter set that counts has been there.
pub proof fn law_parameter_set_comes_from_the_encoder(nals: Seq<Seq<u8>>, ty: u8) -> (i: int)
    requires
        last_of_type(nals, ty) is Some,
    ensures
        0 <= i < nals.len(),
        last_of_type(nals, ty) matches Some(payload) && payload.len() > 0 && payload[0] % 32 == ty
            && is_annex_b(nals[i], payload),
    decreases nals.len(),
{
    let last = nals.last();
    law_split_takes_off_a_start_code(last);
    match nal_payload(last) {
        Some(payload) if nal_type(payload) == ty => nals.len() - 1,
        _ => law_parameter_set_comes_from_the_encoder(nals.drop_last(), ty),
    }
}

/// A unit shows all that it holds.
pub proof fn law_unit_is_read_whole(unit: AccessUnit)
    ensures
        unit@.sample == unit.sample@,
        unit.sps is Some <==> unit@.sps is Some,
        unit.sps matches Some(sps) ==> unit@.sps == Some(sps@),
        unit.pps is Some <==> unit@.pps is Some,
        unit.pps matches Some(pps) ==> unit@.pps == Some(pps@),
{
}

} // verus!
