//! LL-HLS media manifests, rendered as exact text.

use chrono::TimeZone;
use vstd::prelude::*;
use vstd::string::StringExecFns;
use crate::model::{PartInfo, SegmentInfo};
use crate::text::{dec, sdec, secs3, ticks_to_ms, push_dec, push_sdec, push_secs3, ms_of_ticks};

verus! {

/// The text chrono gives for a UTC instant in milliseconds since the epoch,
/// formatted `%Y-%m-%dT%H:%M:%S%.3fZ`.
pub uninterp spec fn utc_millis_text(ms: i64) -> Seq<char>;

/// Milliseconds in about 253,000 years: 8 * 10^15.
pub const CHRONO_SAFE_MILLIS: i64 = 8_000_000_000_000_000;

/// Instants well inside chrono's range (years -262142 to 262142): within
/// 8 * 10^15 ms (about 253,000 years) of the epoch.
pub open spec fn in_chrono_range(ms: int) -> bool {
    -CHRONO_SAFE_MILLIS <= ms <= CHRONO_SAFE_MILLIS
}

/// Relies on chrono's `Utc.timestamp_millis_opt(ms).single()` (none only when
/// the instant is out of chrono's range) and `format("%Y-%m-%dT%H:%M:%S%.3fZ")`.
#[verifier::external_body]
pub(crate) fn format_utc_millis(ms: i64) -> (r: Option<String>)
    ensures
        r matches Some(s) ==> s@ == utc_millis_text(ms),
        in_chrono_range(ms as int) ==> r is Some,
{
    chrono::Utc.timestamp_millis_opt(ms).single().map(|t| t.format("%Y-%m-%dT%H:%M:%S%.3fZ").to_string())
}

pub open spec fn part_ticks(p: PartInfo) -> nat {
    match p.duration {
        Some(d) => d as nat,
        None => 0,
    }
}

/// The `#EXT-X-PART` line of a part of the segment at `dts`.
pub open spec fn part_line(dts: i64, p: PartInfo) -> Seq<char> {
    "#EXT-X-PART:DURATION="@ + secs3(ticks_to_ms(part_ticks(p))) + ",URI=\"segment/"@ + sdec(dts as int)
        + "/part/"@ + dec(p.part_id as nat) + ".mp4\""@ + (if p.independent {
        ",INDEPENDENT=YES"@
    } else {
        Seq::empty()
    }) + "\n"@
}

pub open spec fn part_lines(dts: i64, ps: Seq<PartInfo>) -> Seq<char>
    decreases ps.len(),
{
    if ps.len() == 0 {
        Seq::empty()
    } else {
        part_lines(dts, ps.drop_last()) + part_line(dts, ps.last())
    }
}

/// A segment's lines: a discontinuity mark, its parts when they are offered,
/// and, once complete, its duration and URI.
pub open spec fn segment_block(seg: SegmentInfo, parts: Option<Vec<PartInfo>>) -> Seq<char> {
    (if seg.continuous {
        Seq::empty()
    } else {
        "#EXT-X-DISCONTINUITY\n"@
    }) + (match parts {
        Some(ps) => part_lines(seg.dts, ps@),
        None => Seq::empty(),
    }) + (match seg.duration {
        Some(d) => "#EXTINF:"@ + secs3(ticks_to_ms(d as nat)) + ",\n"@ + "segment/"@ + sdec(
            seg.dts as int,
        ) + "/seg.mp4\n"@,
        None => Seq::empty(),
    })
}

pub open spec fn segment_blocks(segs: Seq<SegmentInfo>, parts: Seq<Option<Vec<PartInfo>>>) -> Seq<char>
    decreases segs.len(),
{
    if segs.len() == 0 {
        Seq::empty()
    } else {
        segment_blocks(segs.drop_last(), parts.drop_last()) + segment_block(segs.last(), parts.last())
    }
}

pub open spec fn manifest_head(target: u32) -> Seq<char> {
    "#EXTM3U\n"@ + "#EXT-X-VERSION:7\n"@ + "#EXT-X-INDEPENDENT-SEGMENTS\n"@
        + "#EXT-X-PART-INF:PART-TARGET=0.320\n"@
        + "#EXT-X-SERVER-CONTROL:CAN-BLOCK-RELOAD=YES,PART-HOLD-BACK=0.960\n"@ + "#EXT-X-TARGETDURATION:"@
        + dec(target as nat) + "\n"@ + "#EXT-X-MAP:URI=\"init.mp4\"\n"@
}

/// Lines that describe the first segment: its sequence number when not zero,
/// and the wall-clock time when known.
pub open spec fn first_segment_lines(segs: Seq<SegmentInfo>, pdt: Option<String>) -> Seq<char> {
    if segs.len() == 0 {
        Seq::empty()
    } else {
        (if segs[0].seq > 0 {
            "#EXT-X-MEDIA-SEQUENCE:"@ + dec(segs[0].seq as nat) + "\n"@
        } else {
            Seq::empty()
        }) + (match pdt {
            Some(t) => "#EXT-X-PROGRAM-DATE-TIME:"@ + t@ + "\n"@,
            None => Seq::empty(),
        })
    }
}

/// The media manifest of a track with the given segments, the parts offered
/// for each, and the wall-clock text of the first segment.
pub open spec fn media_manifest(
    target: u32,
    segs: Seq<SegmentInfo>,
    parts: Seq<Option<Vec<PartInfo>>>,
    pdt: Option<String>,
) -> Seq<char> {
    manifest_head(target) + first_segment_lines(segs, pdt) + segment_blocks(segs, parts)
}

/// Appends one `#EXT-X-PART` line per part of the segment `seg`.
pub fn part_list(text: &mut String, seg: &SegmentInfo, parts: &Vec<PartInfo>)
    ensures
        final(text)@ == old(text)@ + part_lines(seg.dts, parts@),
{
    let mut i: usize = 0;
    while i < parts.len()
        invariant
            i <= parts@.len(),
            text@ == old(text)@ + part_lines(seg.dts, parts@.take(i as int)),
        decreases parts@.len() - i,
    {
        let p = &parts[i];
        let ghost before = text@;
        text.append("#EXT-X-PART:DURATION=");
        let ticks = match p.duration {
            Some(d) => d,
            None => 0,
        };
        push_secs3(text, ms_of_ticks(ticks));
        text.append(",URI=\"segment/");
        push_sdec(text, seg.dts);
        text.append("/part/");
        push_dec(text, p.part_id);
        text.append(".mp4\"");
        if p.independent {
            text.append(",INDEPENDENT=YES");
        }
        text.append("\n");
        proof {
            assert(parts@.take(i + 1).drop_last() =~= parts@.take(i as int));
            assert(parts@.take(i + 1).last() == parts@[i as int]);
            assert(text@ =~= before + part_line(seg.dts, parts@[i as int]));
        }
        i = i + 1;
    }
    assert(parts@.take(parts@.len() as int) =~= parts@);
}

fn push_segment_block(text: &mut String, seg: &SegmentInfo, parts: &Option<Vec<PartInfo>>)
    ensures
        final(text)@ == old(text)@ + segment_block(*seg, *parts),
{
    if !seg.continuous {
        text.append("#EXT-X-DISCONTINUITY\n");
    }
    let ghost mid = text@;
    match parts {
        Some(ps) => part_list(text, seg, ps),
        None => {},
    }
    let ghost mid2 = text@;
    match seg.duration {
        Some(d) => {
            text.append("#EXTINF:");
            push_secs3(text, ms_of_ticks(d));
            text.append(",\n");
            text.append("segment/");
            push_sdec(text, seg.dts);
            text.append("/seg.mp4\n");
        },
        None => {},
    }
    assert(text@ =~= old(text)@ + segment_block(*seg, *parts));
}

/// Renders a media manifest from its segments, the parts offered for each
/// segment, and the wall-clock text of the first segment.
pub fn render_media_manifest(
    target: u32,
    segs: &Vec<SegmentInfo>,
    parts: &Vec<Option<Vec<PartInfo>>>,
    pdt: Option<String>,
) -> (r: String)
    requires
        segs@.len() == parts@.len(),
    ensures
        r@ == media_manifest(target, segs@, parts@, pdt),
{
    let mut text = String::new();
    text.append("#EXTM3U\n");
    text.append("#EXT-X-VERSION:7\n");
    text.append("#EXT-X-INDEPENDENT-SEGMENTS\n");
    text.append("#EXT-X-PART-INF:PART-TARGET=0.320\n");
    text.append("#EXT-X-SERVER-CONTROL:CAN-BLOCK-RELOAD=YES,PART-HOLD-BACK=0.960\n");
    text.append("#EXT-X-TARGETDURATION:");
    push_dec(&mut text, target as u64);
    text.append("\n");
    text.append("#EXT-X-MAP:URI=\"init.mp4\"\n");
    assert(text@ =~= manifest_head(target));
    if segs.len() > 0 {
        let first = &segs[0];
        if first.seq > 0 {
            text.append("#EXT-X-MEDIA-SEQUENCE:");
            push_dec(&mut text, first.seq);
            text.append("\n");
        }
        match &pdt {
            Some(t) => {
                text.append("#EXT-X-PROGRAM-DATE-TIME:");
                text.append(t.as_str());
                text.append("\n");
            },
            None => {},
        }
    }
    assert(text@ =~= manifest_head(target) + first_segment_lines(segs@, pdt));
    let ghost head = text@;
    let mut k: usize = 0;
    while k < segs.len()
        invariant
            segs@.len() == parts@.len(),
            k <= segs@.len(),
            text@ == head + segment_blocks(segs@.take(k as int), parts@.take(k as int)),
        decreases segs@.len() - k,
    {
        push_segment_block(&mut text, &segs[k], &parts[k]);
        proof {
            assert(segs@.take(k + 1).drop_last() =~= segs@.take(k as int));
            assert(parts@.take(k + 1).drop_last() =~= parts@.take(k as int));
            assert(segs@.take(k + 1).last() == segs@[k as int]);
            assert(parts@.take(k + 1).last() == parts@[k as int]);
        }
        k = k + 1;
    }
    assert(segs@.take(segs@.len() as int) =~= segs@);
    assert(parts@.take(parts@.len() as int) =~= parts@);
    text
}

} // verus!
