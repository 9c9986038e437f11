//! Segment URIs written in manifests read back as the segment they name.

use vstd::prelude::*;
use crate::parse::{all_digits, digits_value, is_digit, parse_i64, parse_unsigned};
use crate::request::{
    Route, TrackRequest, has_prefix, lit_master, lit_part, lit_seg, lit_segment, lit_track,
    route_of, slash_index, split_once,
};
use crate::text::{dec, digit_char, sdec};

verus! {

/// The bytes of ASCII text.
pub open spec fn ascii(s: Seq<char>) -> Seq<u8> {
    s.map_values(|c: char| c as u8)
}

/// The request path of segment `dts` of track `id`, as a client forms it from
/// the manifest's `segment/{dts}/seg.mp4`.
pub open spec fn segment_path(id: usize, dts: i64) -> Seq<u8> {
    lit_track() + ascii(dec(id as nat)) + seq![0x2fu8] + lit_segment() + ascii(sdec(dts as int))
        + seq![0x2fu8] + lit_seg()
}

proof fn lemma_digit_char(d: int)
    requires
        0 <= d < 10,
    ensures
        digit_char(d) as u8 == 0x30 + d,
{
}

proof fn lemma_dec_digits(n: nat)
    ensures
        ascii(dec(n)).len() >= 1,
        all_digits(ascii(dec(n))),
        digits_value(ascii(dec(n))) == n,
    decreases n,
{
    if n < 10 {
        lemma_digit_char(n as int);
        assert(ascii(dec(n)).drop_last() =~= Seq::<u8>::empty());
        assert(digits_value(Seq::<u8>::empty()) == 0);
        assert(ascii(dec(n)).last() == digit_char(n as int) as u8);
    } else {
        lemma_dec_digits(n / 10);
        lemma_digit_char((n % 10) as int);
        assert(ascii(dec(n)) =~= ascii(dec(n / 10)).push(digit_char((n % 10) as int) as u8));
        assert(ascii(dec(n)).drop_last() =~= ascii(dec(n / 10)));
        assert(ascii(dec(n)).last() == digit_char((n % 10) as int) as u8);
        assert(n == (n / 10) * 10 + n % 10);
    }
}

proof fn lemma_slash_after(a: Seq<u8>, b: Seq<u8>)
    requires
        forall|i: int| 0 <= i < a.len() ==> a[i] != 0x2f,
    ensures
        slash_index(a + seq![0x2fu8] + b) == a.len(),
    decreases a.len(),
{
    if a.len() == 0 {
        assert((a + seq![0x2fu8] + b)[0] == 0x2f);
    } else {
        assert((a + seq![0x2fu8] + b).drop_first() =~= a.drop_first() + seq![0x2fu8] + b);
        lemma_slash_after(a.drop_first(), b);
    }
}

proof fn lemma_split(a: Seq<u8>, b: Seq<u8>)
    requires
        forall|i: int| 0 <= i < a.len() ==> a[i] != 0x2f,
    ensures
        split_once(a + seq![0x2fu8] + b) == (a, Some(b)),
{
    lemma_slash_after(a, b);
    assert((a + seq![0x2fu8] + b).take(a.len() as int) =~= a);
    assert((a + seq![0x2fu8] + b).skip(a.len() as int + 1) =~= b);
}

proof fn lemma_sdec_parses(d: i64)
    ensures
        parse_i64(ascii(sdec(d as int))) == Some(d as int),
        forall|i: int| 0 <= i < ascii(sdec(d as int)).len() ==> ascii(sdec(d as int))[i] != 0x2f,
{
    if d < 0 {
        let m = (-d) as nat;
        lemma_dec_digits(m);
        let s = ascii(sdec(d as int));
        assert(s =~= seq![0x2du8] + ascii(dec(m)));
        assert(s.drop_first() =~= ascii(dec(m)));
        assert(forall|i: int| 0 <= i < ascii(dec(m)).len() ==> is_digit(#[trigger] ascii(dec(m))[i]));
    } else {
        lemma_dec_digits(d as nat);
        let s = ascii(sdec(d as int));
        assert(is_digit(s[0]));
    }
}

/// The URI of a listed segment routes back to that segment: the path formed
/// from the manifest's `segment/{dts}/seg.mp4` for track `id` is read as a
/// request for segment `dts` of track `id`.
pub proof fn lemma_segment_uri_round_trip(id: usize, dts: i64)
    ensures
        route_of(segment_path(id, dts)) == Route::Track(id, TrackRequest::Segment(dts)),
{
    let idt = ascii(dec(id as nat));
    let dt = ascii(sdec(dts as int));
    lemma_dec_digits(id as nat);
    lemma_sdec_parses(dts);
    let tail = lit_segment() + dt + seq![0x2fu8] + lit_seg();
    let path = segment_path(id, dts);
    assert(path =~= lit_track() + (idt + seq![0x2fu8] + tail));
    assert(path[1] != lit_master()[1]);
    assert(!has_prefix(path, lit_master()));
    assert(path.take(7) =~= lit_track());
    assert(path.skip(7) =~= idt + seq![0x2fu8] + tail);
    assert(forall|i: int| 0 <= i < idt.len() ==> is_digit(#[trigger] idt[i]));
    lemma_split(idt, tail);
    assert(is_digit(idt[0]));
    assert(parse_unsigned(idt, usize::MAX as int) == Some(id as int));
    assert(tail.take(8) =~= lit_segment());
    assert(tail[0] != 0x6d && tail[0] != 0x69);
    assert(tail.skip(8) =~= dt + seq![0x2fu8] + lit_seg());
    lemma_split(dt, lit_seg());
    assert(lit_seg()[0] != lit_part()[0]);
    assert(!has_prefix(lit_seg(), lit_part()));
}

} // verus!
