//! Box encoding of planned fragments through mse_fmp4, and the decode time
//! written into the encoded `tfdt` box.

use mse_fmp4::fmp4;
use mse_fmp4::io::WriteTo;
use vstd::prelude::*;
use crate::fragment::{FragmentPlan, FragmentSample, FragmentFlags, be32};

verus! {

#[verifier::external_type_specification]
#[verifier::external_body]
pub struct ExFmp4Error(mse_fmp4::Error);

#[verifier::external_type_specification]
pub struct ExSampleFlags(fmp4::SampleFlags);

/// Failures while assembling a fragment.
#[derive(Debug, Clone, Copy, PartialEq, Eq, Structural)]
pub enum EncodeError {
    /// The box writer refused the fragment.
    Writer,
}

/// Reads a big-endian 32-bit value at `p`.
pub open spec fn read_be32(b: Seq<u8>, p: int) -> int {
    b[p] * 0x100_0000 + b[p + 1] * 0x1_0000 + b[p + 2] * 0x100 + b[p + 3]
}

/// The box header at `p` fits in `b` and carries the four-character type `t`.
pub open spec fn box_at(b: Seq<u8>, p: int, t: Seq<u8>) -> bool {
    &&& 0 <= p
    &&& p + 8 <= b.len()
    &&& b.subrange(p + 4, p + 8) == t
}

pub open spec fn moof_type() -> Seq<u8> {
    seq![0x6du8, 0x6fu8, 0x6fu8, 0x66u8]
}

pub open spec fn mfhd_type() -> Seq<u8> {
    seq![0x6du8, 0x66u8, 0x68u8, 0x64u8]
}

pub open spec fn traf_type() -> Seq<u8> {
    seq![0x74u8, 0x72u8, 0x61u8, 0x66u8]
}

pub open spec fn tfhd_type() -> Seq<u8> {
    seq![0x74u8, 0x66u8, 0x68u8, 0x64u8]
}

pub open spec fn tfdt_type() -> Seq<u8> {
    seq![0x74u8, 0x66u8, 0x64u8, 0x74u8]
}

/// Where the 32-bit `baseMediaDecodeTime` of a version-0 `tfdt` box lies in
/// a media fragment laid out as `moof { mfhd, traf { tfhd, tfdt, .. } }`.
pub open spec fn tfdt_offset(b: Seq<u8>) -> Option<int> {
    if !(box_at(b, 0, moof_type()) && box_at(b, 8, mfhd_type())) {
        None
    } else {
        let traf = 8 + read_be32(b, 8);
        if !(box_at(b, traf, traf_type()) && box_at(b, traf + 8, tfhd_type())) {
            None
        } else {
            let tfdt = traf + 8 + read_be32(b, traf + 8);
            if box_at(b, tfdt, tfdt_type()) && tfdt + 16 <= b.len() && b[tfdt + 8] == 0 {
                Some(tfdt + 12)
            } else {
                None
            }
        }
    }
}

/// The decode time a media fragment declares, when its layout is the expected one.
pub open spec fn declared_decode_time(b: Seq<u8>) -> Option<int> {
    match tfdt_offset(b) {
        Some(off) => Some(read_be32(b, off)),
        None => None,
    }
}

fn read_be32_at(b: &Vec<u8>, p: usize) -> (r: u64)
    requires
        p + 4 <= b@.len(),
    ensures
        r == read_be32(b@, p as int),
{
    let n = b.len();
    assert(p + 4 <= n);
    b[p] as u64 * 0x100_0000 + b[p + 1] as u64 * 0x1_0000 + b[p + 2] as u64 * 0x100 + b[p + 3] as u64
}

fn has_box(b: &Vec<u8>, p: u64, t0: u8, t1: u8, t2: u8, t3: u8) -> (r: bool)
    ensures
        r == box_at(b@, p as int, seq![t0, t1, t2, t3]),
{
    if p > b.len() as u64 || b.len() as u64 - p < 8 {
        return false;
    }
    let q = p as usize;
    let r = b[q + 4] == t0 && b[q + 5] == t1 && b[q + 6] == t2 && b[q + 7] == t3;
    assert(r == (b@.subrange(q + 4, q + 8) =~= seq![t0, t1, t2, t3]));
    r
}

/// Finds the `baseMediaDecodeTime` field of an encoded media fragment.
pub fn find_tfdt(b: &Vec<u8>) -> (r: Option<usize>)
    ensures
        match r {
            Some(off) => tfdt_offset(b@) == Some(off as int),
            None => tfdt_offset(b@) is None,
        },
{
    let n = b.len();
    assert(seq![0x6du8, 0x6fu8, 0x6fu8, 0x66u8] =~= moof_type());
    assert(seq![0x6du8, 0x66u8, 0x68u8, 0x64u8] =~= mfhd_type());
    assert(seq![0x74u8, 0x72u8, 0x61u8, 0x66u8] =~= traf_type());
    assert(seq![0x74u8, 0x66u8, 0x68u8, 0x64u8] =~= tfhd_type());
    assert(seq![0x74u8, 0x66u8, 0x64u8, 0x74u8] =~= tfdt_type());
    if !(has_box(b, 0, 0x6d, 0x6f, 0x6f, 0x66) && has_box(b, 8, 0x6d, 0x66, 0x68, 0x64)) {
        return None;
    }
    let traf = 8 + read_be32_at(b, 8);
    if !(has_box(b, traf, 0x74, 0x72, 0x61, 0x66) && has_box(b, traf + 8, 0x74, 0x66, 0x68, 0x64)) {
        return None;
    }
    let tfdt = traf + 8 + read_be32_at(b, (traf + 8) as usize);
    if !has_box(b, tfdt, 0x74, 0x66, 0x64, 0x74) || b.len() as u64 - tfdt < 16 {
        return None;
    }
    if b[(tfdt + 8) as usize] != 0 {
        return None;
    }
    Some((tfdt + 12) as usize)
}

/// Bytes below the decode-time field are all that locate it.
pub proof fn lemma_layout_kept(b0: Seq<u8>, b1: Seq<u8>, off: int)
    requires
        tfdt_offset(b0) == Some(off),
        b1.len() == b0.len(),
        forall|i: int| 0 <= i < off ==> b1[i] == b0[i],
    ensures
        tfdt_offset(b1) == Some(off),
{
    assert(b1.subrange(4, 8) =~= b0.subrange(4, 8));
    assert(b1.subrange(12, 16) =~= b0.subrange(12, 16));
    let traf = 8 + read_be32(b0, 8);
    assert(read_be32(b1, 8) == read_be32(b0, 8));
    assert(b1.subrange(traf + 4, traf + 8) =~= b0.subrange(traf + 4, traf + 8));
    assert(b1.subrange(traf + 12, traf + 16) =~= b0.subrange(traf + 12, traf + 16));
    assert(read_be32(b1, traf + 8) == read_be32(b0, traf + 8));
    let tf = traf + 8 + read_be32(b0, traf + 8);
    assert(b1.subrange(tf + 4, tf + 8) =~= b0.subrange(tf + 4, tf + 8));
}

pub proof fn lemma_read_be32(b: Seq<u8>, off: int, t: u32)
    requires
        0 <= off,
        off + 4 <= b.len(),
        b.subrange(off, off + 4) == be32(t),
    ensures
        read_be32(b, off) == t as int,
{
    assert(b[off] == be32(t)[0]);
    assert(b[off + 1] == be32(t)[1]);
    assert(b[off + 2] == be32(t)[2]);
    assert(b[off + 3] == be32(t)[3]);
    let x = t as int;
    assert((x / 0x100_0000) * 0x100_0000 + ((x / 0x1_0000) % 0x100) * 0x1_0000 + ((x / 0x100) % 0x100)
        * 0x100 + x % 0x100 == x) by (nonlinear_arith)
        requires
            0 <= x < 0x1_0000_0000,
    ;
}

/// Writes `t` as the decode time of an encoded media fragment, leaving every
/// other byte as it was; fails, changing nothing, when the layout is not the
/// expected one.
pub fn write_decode_time(b: &mut Vec<u8>, t: u32) -> (ok: bool)
    ensures
        ok == (tfdt_offset(old(b)@) is Some),
        ok ==> final(b)@ == old(b)@.subrange(0, tfdt_offset(old(b)@)->0) + be32(t) + old(b)@.subrange(
            tfdt_offset(old(b)@)->0 + 4,
            old(b)@.len() as int,
        ),
        ok ==> declared_decode_time(final(b)@) == Some(t as int),
        !ok ==> final(b)@ == old(b)@,
{
    let ghost b0 = b@;
    let n = b.len();
    match find_tfdt(b) {
        None => false,
        Some(off) => {
            b.set(off, (t / 0x100_0000) as u8);
            b.set(off + 1, ((t / 0x1_0000) % 0x100) as u8);
            b.set(off + 2, ((t / 0x100) % 0x100) as u8);
            b.set(off + 3, (t % 0x100) as u8);
            proof {
                let b1 = b@;
                assert(b1 =~= b0.subrange(0, off as int) + be32(t) + b0.subrange(
                    off + 4,
                    b0.len() as int,
                ));
                assert forall|i: int| 0 <= i < off implies b1[i] == b0[i] by {}
                lemma_layout_kept(b0, b1, off as int);
                assert(b1.subrange(off as int, off + 4) =~= be32(t));
                lemma_read_be32(b1, off as int, t);
            }
            true
        },
    }
}

/// Every row carries the same optional fields.
pub open spec fn rows_uniform(rows: Seq<FragmentSample>) -> bool {
    forall|i: int, j: int|
        0 <= i < rows.len() && 0 <= j < rows.len() ==> (#[trigger] rows[i].duration is Some) == (
        #[trigger] rows[j].duration is Some)
}

/// The bytes mse_fmp4 writes for a media segment built from these values.
pub uninterp spec fn fragment_bytes(
    sequence_number: u32,
    video: bool,
    default_duration: Option<u32>,
    default_flags: Option<fmp4::SampleFlags>,
    data_offset: i32,
    first_flags: Option<fmp4::SampleFlags>,
    rows: Seq<FragmentSample>,
    data: Seq<u8>,
) -> Seq<u8>;

/// Relies on mse_fmp4's `MediaSegment`, `TrackFragmentBox::new`, `Sample` and
/// `WriteTo::write_to`: one `moof` (an `mfhd` with the sequence number, one
/// `traf` with the `tfhd` defaults, a version-0 `tfdt`, and a `trun` with the
/// data offset, first-sample flags and one row per sample) and one `mdat`
/// holding `data`. Writing fails only when rows differ in the fields they carry.
#[verifier::external_body]
fn write_fragment(
    sequence_number: u32,
    video: bool,
    default_duration: Option<u32>,
    default_flags: Option<fmp4::SampleFlags>,
    data_offset: i32,
    first_flags: Option<fmp4::SampleFlags>,
    rows: &Vec<FragmentSample>,
    data: Vec<u8>,
) -> (r: Result<Vec<u8>, mse_fmp4::Error>)
    ensures
        rows_uniform(rows@) ==> r is Ok,
        r matches Ok(b) ==> b@ == fragment_bytes(sequence_number, video, default_duration, default_flags,
            data_offset, first_flags, rows@, data@) && tfdt_offset(b@) is Some,
{
    let mut traf = fmp4::TrackFragmentBox::new(video);
    traf.tfhd_box.default_sample_duration = default_duration;
    traf.tfhd_box.default_sample_flags = default_flags;
    traf.trun_box.data_offset = Some(data_offset);
    traf.trun_box.first_sample_flags = first_flags;
    traf.trun_box.samples = rows.iter().map(|r| fmp4::Sample { duration: r.duration, size: Some(r.size),
        flags: None, composition_time_offset: Some(r.composition_time_offset) }).collect();
    let mut segment = fmp4::MediaSegment::default();
    segment.moof_box.mfhd_box.sequence_number = sequence_number;
    segment.moof_box.traf_boxes.push(traf);
    segment.mdat_boxes.push(fmp4::MediaDataBox { data });
    let mut out = Vec::new();
    segment.write_to(&mut out).map(|()| out)
}

/// The flags mse_fmp4 writes for ours, field by field.
pub open spec fn fmp4_flags(f: FragmentFlags) -> fmp4::SampleFlags {
    fmp4::SampleFlags {
        is_leading: f.is_leading,
        sample_depends_on: f.sample_depends_on,
        sample_is_depdended_on: f.sample_is_depended_on,
        sample_has_redundancy: f.sample_has_redundancy,
        sample_padding_value: f.sample_padding_value,
        sample_is_non_sync_sample: f.sample_is_non_sync_sample,
        sample_degradation_priority: f.sample_degradation_priority,
    }
}

pub open spec fn fmp4_flags_opt(f: Option<FragmentFlags>) -> Option<fmp4::SampleFlags> {
    match f {
        Some(x) => Some(fmp4_flags(x)),
        None => None,
    }
}

fn to_fmp4_flags(f: Option<FragmentFlags>) -> (r: Option<fmp4::SampleFlags>)
    ensures
        r == fmp4_flags_opt(f),
{
    match f {
        Some(x) => Some(
            fmp4::SampleFlags {
                is_leading: x.is_leading,
                sample_depends_on: x.sample_depends_on,
                sample_is_depdended_on: x.sample_is_depended_on,
                sample_has_redundancy: x.sample_has_redundancy,
                sample_padding_value: x.sample_padding_value,
                sample_is_non_sync_sample: x.sample_is_non_sync_sample,
                sample_degradation_priority: x.sample_degradation_priority,
            },
        ),
        None => None,
    }
}

/// The track run's data offset for a `moof` of the given size: just past the
/// `mdat` header that follows it (saturating at `i32::MAX`).
pub open spec fn data_offset_for(moof_size: int) -> i32 {
    if moof_size <= 0x7fff_fff7 {
        (moof_size + 8) as i32
    } else {
        i32::MAX
    }
}

/// `b` with the 32-bit big-endian `t` written at `off`.
pub open spec fn with_be32(b: Seq<u8>, off: int, t: u32) -> Seq<u8> {
    b.subrange(0, off) + be32(t) + b.subrange(off + 4, b.len() as int)
}

/// The bytes of an encoded fragment: written once with data offset 0 to
/// measure the `moof` (its first four bytes), written again with the offset
/// just past the following `mdat` header, and given the decode time in its
/// `tfdt`.
pub open spec fn encoded_fragment(
    sequence_number: u32,
    video: bool,
    default_duration: Option<u32>,
    default_flags: Option<FragmentFlags>,
    first_flags: Option<FragmentFlags>,
    rows: Seq<FragmentSample>,
    data: Seq<u8>,
    decode_time: u32,
) -> Seq<u8> {
    let write = |off: i32|
        fragment_bytes(
            sequence_number,
            video,
            default_duration,
            fmp4_flags_opt(default_flags),
            off,
            fmp4_flags_opt(first_flags),
            rows,
            data,
        );
    let out = write(data_offset_for(read_be32(write(0), 0)));
    with_be32(out, tfdt_offset(out)->0, decode_time)
}

/// The bytes of an encoded plan.
pub open spec fn plan_bytes(plan: FragmentPlan) -> Seq<u8> {
    encoded_fragment(
        plan.sequence_number,
        plan.video,
        plan.default_sample_duration,
        plan.default_sample_flags,
        plan.first_sample_flags,
        plan.samples@,
        plan.data@,
        plan.base_media_decode_time,
    )
}

fn write_plan(plan: &FragmentPlan, data_offset: i32) -> (r: Result<Vec<u8>, mse_fmp4::Error>)
    ensures
        rows_uniform(plan.samples@) ==> r is Ok,
        r matches Ok(b) ==> b@ == fragment_bytes(
            plan.sequence_number,
            plan.video,
            plan.default_sample_duration,
            fmp4_flags_opt(plan.default_sample_flags),
            data_offset,
            fmp4_flags_opt(plan.first_sample_flags),
            plan.samples@,
            plan.data@,
        ) && tfdt_offset(b@) is Some,
{
    write_fragment(
        plan.sequence_number,
        plan.video,
        plan.default_sample_duration,
        to_fmp4_flags(plan.default_sample_flags),
        data_offset,
        to_fmp4_flags(plan.first_sample_flags),
        &plan.samples,
        plan.data.clone(),
    )
}

/// Encodes a planned fragment (`plan_bytes`): the track run's data offset
/// points just past the `mdat` header that follows the `moof`, and the `tfdt`
/// box carries the plan's decode time. It succeeds whenever every row carries
/// the same fields.
pub fn encode_fragment(plan: &FragmentPlan) -> (r: Result<Vec<u8>, EncodeError>)
    ensures
        rows_uniform(plan.samples@) ==> r is Ok,
        r matches Ok(b) ==> b@ == plan_bytes(*plan) && declared_decode_time(b@) == Some(
            plan.base_media_decode_time as int,
        ),
        r matches Err(e) ==> e == EncodeError::Writer,
{
    let probe = match write_plan(plan, 0) {
        Ok(b) => b,
        Err(_) => return Err(EncodeError::Writer),
    };
    let moof_size = read_be32_at(&probe, 0);
    let data_offset: i32 = if moof_size <= 0x7fff_fff7 {
        (moof_size + 8) as i32
    } else {
        i32::MAX
    };
    let mut out = match write_plan(plan, data_offset) {
        Ok(b) => b,
        Err(_) => return Err(EncodeError::Writer),
    };
    let ok = write_decode_time(&mut out, plan.base_media_decode_time);
    assert(ok);
    Ok(out)
}

} // verus!
