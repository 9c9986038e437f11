//! What a request asks for, and the decisions taken on it.

use vstd::prelude::*;
use crate::model::TrackSequence;
use crate::parse::{parse_unsigned, parse_i64, parse_u64, parse_i64_bytes};

verus! {

pub open spec fn lit_master() -> Seq<u8> {
    seq![0x2fu8, 0x6du8, 0x61u8, 0x73u8, 0x74u8, 0x65u8, 0x72u8, 0x2eu8, 0x6du8, 0x33u8, 0x75u8, 0x38u8]
}

fn master_bytes() -> (r: Vec<u8>)
    ensures
        r@ == lit_master(),
{
    let r: Vec<u8> = vec![0x2f, 0x6d, 0x61, 0x73, 0x74, 0x65, 0x72, 0x2e, 0x6d, 0x33, 0x75, 0x38];
    assert(r@ =~= lit_master());
    r
}

pub open spec fn lit_track() -> Seq<u8> {
    seq![0x2fu8, 0x74u8, 0x72u8, 0x61u8, 0x63u8, 0x6bu8, 0x2fu8]
}

fn track_bytes() -> (r: Vec<u8>)
    ensures
        r@ == lit_track(),
{
    let r: Vec<u8> = vec![0x2f, 0x74, 0x72, 0x61, 0x63, 0x6b, 0x2f];
    assert(r@ =~= lit_track());
    r
}

pub open spec fn lit_media() -> Seq<u8> {
    seq![0x6du8, 0x65u8, 0x64u8, 0x69u8, 0x61u8, 0x2eu8, 0x6du8, 0x33u8, 0x75u8, 0x38u8]
}

fn media_bytes() -> (r: Vec<u8>)
    ensures
        r@ == lit_media(),
{
    let r: Vec<u8> = vec![0x6d, 0x65, 0x64, 0x69, 0x61, 0x2e, 0x6d, 0x33, 0x75, 0x38];
    assert(r@ =~= lit_media());
    r
}

pub open spec fn lit_init() -> Seq<u8> {
    seq![0x69u8, 0x6eu8, 0x69u8, 0x74u8, 0x2eu8, 0x6du8, 0x70u8, 0x34u8]
}

fn init_bytes() -> (r: Vec<u8>)
    ensures
        r@ == lit_init(),
{
    let r: Vec<u8> = vec![0x69, 0x6e, 0x69, 0x74, 0x2e, 0x6d, 0x70, 0x34];
    assert(r@ =~= lit_init());
    r
}

pub open spec fn lit_segment() -> Seq<u8> {
    seq![0x73u8, 0x65u8, 0x67u8, 0x6du8, 0x65u8, 0x6eu8, 0x74u8, 0x2fu8]
}

fn segment_bytes() -> (r: Vec<u8>)
    ensures
        r@ == lit_segment(),
{
    let r: Vec<u8> = vec![0x73, 0x65, 0x67, 0x6d, 0x65, 0x6e, 0x74, 0x2f];
    assert(r@ =~= lit_segment());
    r
}

pub open spec fn lit_part() -> Seq<u8> {
    seq![0x70u8, 0x61u8, 0x72u8, 0x74u8, 0x2fu8]
}

fn part_bytes() -> (r: Vec<u8>)
    ensures
        r@ == lit_part(),
{
    let r: Vec<u8> = vec![0x70, 0x61, 0x72, 0x74, 0x2f];
    assert(r@ =~= lit_part());
    r
}

pub open spec fn lit_mp4() -> Seq<u8> {
    seq![0x2eu8, 0x6du8, 0x70u8, 0x34u8]
}

fn mp4_bytes() -> (r: Vec<u8>)
    ensures
        r@ == lit_mp4(),
{
    let r: Vec<u8> = vec![0x2e, 0x6d, 0x70, 0x34];
    assert(r@ =~= lit_mp4());
    r
}

pub open spec fn lit_seg() -> Seq<u8> {
    seq![0x73u8, 0x65u8, 0x67u8, 0x2eu8, 0x6du8, 0x70u8, 0x34u8]
}

fn seg_bytes() -> (r: Vec<u8>)
    ensures
        r@ == lit_seg(),
{
    let r: Vec<u8> = vec![0x73, 0x65, 0x67, 0x2e, 0x6d, 0x70, 0x34];
    assert(r@ =~= lit_seg());
    r
}

pub open spec fn lit_msn() -> Seq<u8> {
    seq![0x5fu8, 0x48u8, 0x4cu8, 0x53u8, 0x5fu8, 0x6du8, 0x73u8, 0x6eu8]
}

fn msn_bytes() -> (r: Vec<u8>)
    ensures
        r@ == lit_msn(),
{
    let r: Vec<u8> = vec![0x5f, 0x48, 0x4c, 0x53, 0x5f, 0x6d, 0x73, 0x6e];
    assert(r@ =~= lit_msn());
    r
}

pub open spec fn lit_hpart() -> Seq<u8> {
    seq![0x5fu8, 0x48u8, 0x4cu8, 0x53u8, 0x5fu8, 0x70u8, 0x61u8, 0x72u8, 0x74u8]
}

fn hpart_bytes() -> (r: Vec<u8>)
    ensures
        r@ == lit_hpart(),
{
    let r: Vec<u8> = vec![0x5f, 0x48, 0x4c, 0x53, 0x5f, 0x70, 0x61, 0x72, 0x74];
    assert(r@ =~= lit_hpart());
    r
}

pub open spec fn lit_push() -> Seq<u8> {
    seq![0x5fu8, 0x48u8, 0x4cu8, 0x53u8, 0x5fu8, 0x70u8, 0x75u8, 0x73u8, 0x68u8]
}

fn push_bytes() -> (r: Vec<u8>)
    ensures
        r@ == lit_push(),
{
    let r: Vec<u8> = vec![0x5f, 0x48, 0x4c, 0x53, 0x5f, 0x70, 0x75, 0x73, 0x68];
    assert(r@ =~= lit_push());
    r
}

/// `s` begins with `pre`.
pub open spec fn has_prefix(s: Seq<u8>, pre: Seq<u8>) -> bool {
    s.len() >= pre.len() && s.take(pre.len() as int) == pre
}

/// `s` ends with `suf`.
pub open spec fn has_suffix(s: Seq<u8>, suf: Seq<u8>) -> bool {
    s.len() >= suf.len() && s.skip(s.len() - suf.len()) == suf
}

/// Position of the first `/`, or -1.
pub open spec fn slash_index(s: Seq<u8>) -> int
    decreases s.len(),
{
    if s.len() == 0 {
        -1
    } else if s[0] == 0x2f {
        0
    } else {
        let r = slash_index(s.drop_first());
        if r < 0 {
            -1
        } else {
            r + 1
        }
    }
}

/// Splits at the first `/`: the text before it, and the text after it if
/// there is a `/`.
pub open spec fn split_once(s: Seq<u8>) -> (Seq<u8>, Option<Seq<u8>>) {
    let i = slash_index(s);
    if i < 0 {
        (s, None)
    } else {
        (s.take(i), Some(s.skip(i + 1)))
    }
}

/// Why a request path is refused.
#[derive(Debug, Clone, Copy, PartialEq, Eq, Structural)]
pub enum PathError {
    UnknownPath,
    BadTrackId,
    NoTrackAction,
    UnknownTrackAction,
    InvalidSegmentId,
    InvalidPartRequest,
    InvalidPartId,
    UnknownSegmentKind,
}

/// What a request asks of one track.
#[derive(Debug, Clone, Copy, PartialEq, Eq, Structural)]
pub enum TrackRequest {
    MediaManifest,
    Init,
    Segment(i64),
    Part(i64, u64),
    Invalid(PathError),
}

/// What a request path asks for.
#[derive(Debug, Clone, Copy, PartialEq, Eq, Structural)]
pub enum Route {
    Master,
    Track(usize, TrackRequest),
    Invalid(PathError),
}

/// What follows `segment/`: a segment id, then `seg.mp4` or `part/{n}.mp4`.
pub open spec fn segment_route(rest: Seq<u8>) -> TrackRequest {
    let (id, tail) = split_once(rest);
    match parse_i64(id) {
        None => TrackRequest::Invalid(PathError::InvalidSegmentId),
        Some(d) => match tail {
            None => TrackRequest::Invalid(PathError::UnknownSegmentKind),
            Some(t) => if has_prefix(t, lit_part()) {
                let p = t.skip(lit_part().len() as int);
                if !has_suffix(p, lit_mp4()) {
                    TrackRequest::Invalid(PathError::InvalidPartRequest)
                } else {
                    match parse_unsigned(p.take(p.len() - 4), u64::MAX as int) {
                        Some(n) => TrackRequest::Part(d as i64, n as u64),
                        None => TrackRequest::Invalid(PathError::InvalidPartId),
                    }
                }
            } else if t == lit_seg() {
                TrackRequest::Segment(d as i64)
            } else {
                TrackRequest::Invalid(PathError::UnknownSegmentKind)
            },
        },
    }
}

/// What follows `/track/{id}/`.
pub open spec fn track_route(rest: Option<Seq<u8>>) -> TrackRequest {
    match rest {
        None => TrackRequest::Invalid(PathError::NoTrackAction),
        Some(r) => if r == lit_media() {
            TrackRequest::MediaManifest
        } else if r == lit_init() {
            TrackRequest::Init
        } else if has_prefix(r, lit_segment()) {
            segment_route(r.skip(lit_segment().len() as int))
        } else {
            TrackRequest::Invalid(PathError::UnknownTrackAction)
        },
    }
}

/// The route of a request path.
pub open spec fn route_of(path: Seq<u8>) -> Route {
    if has_prefix(path, lit_master()) {
        Route::Master
    } else if has_prefix(path, lit_track()) {
        let (id, rest) = split_once(path.skip(lit_track().len() as int));
        match parse_unsigned(id, usize::MAX as int) {
            Some(n) => Route::Track(n as usize, track_route(rest)),
            None => Route::Invalid(PathError::BadTrackId),
        }
    } else {
        Route::Invalid(PathError::UnknownPath)
    }
}

fn starts_with(s: &[u8], pre: &Vec<u8>) -> (r: bool)
    ensures
        r == has_prefix(s@, pre@),
{
    if s.len() < pre.len() {
        return false;
    }
    let mut i: usize = 0;
    while i < pre.len()
        invariant
            i <= pre@.len() <= s@.len(),
            forall|j: int| 0 <= j < i ==> s@[j] == pre@[j],
        decreases pre@.len() - i,
    {
        if s[i] != pre[i] {
            assert(s@.take(pre@.len() as int)[i as int] != pre@[i as int]);
            return false;
        }
        i = i + 1;
    }
    assert(s@.take(pre@.len() as int) =~= pre@);
    true
}

fn equals(s: &[u8], t: &Vec<u8>) -> (r: bool)
    ensures
        r == (s@ == t@),
{
    if s.len() != t.len() {
        return false;
    }
    let r = starts_with(s, t);
    assert(s@.take(t@.len() as int) =~= s@);
    r
}

fn ends_with(s: &[u8], suf: &Vec<u8>) -> (r: bool)
    ensures
        r == has_suffix(s@, suf@),
{
    if s.len() < suf.len() {
        return false;
    }
    let (_, tail) = s.split_at(s.len() - suf.len());
    assert(tail@ =~= s@.skip(s@.len() - suf@.len()));
    equals(tail, suf)
}

fn skip(s: &[u8], n: usize) -> (r: &[u8])
    requires
        n <= s@.len(),
    ensures
        r@ == s@.skip(n as int),
{
    let (_, tail) = s.split_at(n);
    assert(tail@ =~= s@.skip(n as int));
    tail
}

fn split_at_slash(s: &[u8]) -> (r: (&[u8], Option<&[u8]>))
    ensures
        r.0@ == split_once(s@).0,
        match r.1 {
            Some(t) => split_once(s@).1 == Some(t@),
            None => split_once(s@).1 is None,
        },
{
    let n = s.len();
    let mut i: usize = 0;
    while i < n
        invariant
            n == s@.len(),
            i <= n,
            forall|j: int| 0 <= j < i ==> s@[j] != 0x2f,
        decreases n - i,
    {
        if s[i] == 0x2f {
            proof {
                lemma_slash_index(s@, i as int);
            }
            let (a, b) = s.split_at(i);
            let c = skip(b, 1);
            assert(a@ =~= s@.take(i as int));
            assert(c@ =~= s@.skip(i + 1));
            return (a, Some(c));
        }
        i = i + 1;
    }
    proof {
        lemma_no_slash(s@);
    }
    (s, None)
}

proof fn lemma_slash_index(s: Seq<u8>, i: int)
    requires
        0 <= i < s.len(),
        s[i] == 0x2f,
        forall|j: int| 0 <= j < i ==> s[j] != 0x2f,
    ensures
        slash_index(s) == i,
    decreases i,
{
    if i > 0 {
        lemma_slash_index(s.drop_first(), i - 1);
    }
}

proof fn lemma_no_slash(s: Seq<u8>)
    requires
        forall|j: int| 0 <= j < s.len() ==> s[j] != 0x2f,
    ensures
        slash_index(s) == -1,
    decreases s.len(),
{
    if s.len() > 0 {
        lemma_no_slash(s.drop_first());
    }
}

fn segment_request(rest: &[u8]) -> (r: TrackRequest)
    ensures
        r == segment_route(rest@),
{
    let (id, tail) = split_at_slash(rest);
    let d = match parse_i64_bytes(id) {
        Some(d) => d,
        None => return TrackRequest::Invalid(PathError::InvalidSegmentId),
    };
    match tail {
        None => TrackRequest::Invalid(PathError::UnknownSegmentKind),
        Some(t) => {
            if starts_with(t, &part_bytes()) {
                let p = skip(t, 5);
                if !ends_with(p, &mp4_bytes()) {
                    return TrackRequest::Invalid(PathError::InvalidPartRequest);
                }
                let (digits, _) = p.split_at(p.len() - 4);
                assert(digits@ =~= p@.take(p@.len() - 4));
                match parse_u64(digits, u64::MAX) {
                    Some(n) => TrackRequest::Part(d, n),
                    None => TrackRequest::Invalid(PathError::InvalidPartId),
                }
            } else if equals(t, &seg_bytes()) {
                TrackRequest::Segment(d)
            } else {
                TrackRequest::Invalid(PathError::UnknownSegmentKind)
            }
        },
    }
}

/// Reads what a request path asks for.
pub fn route(path: &[u8]) -> (r: Route)
    ensures
        r == route_of(path@),
{
    if starts_with(path, &master_bytes()) {
        return Route::Master;
    }
    if !starts_with(path, &track_bytes()) {
        return Route::Invalid(PathError::UnknownPath);
    }
    let (id, rest) = split_at_slash(skip(path, 7));
    let n = match parse_u64(id, usize::MAX as u64) {
        Some(n) => n as usize,
        None => return Route::Invalid(PathError::BadTrackId),
    };
    let req = match rest {
        None => TrackRequest::Invalid(PathError::NoTrackAction),
        Some(r) => {
            if equals(r, &media_bytes()) {
                TrackRequest::MediaManifest
            } else if equals(r, &init_bytes()) {
                TrackRequest::Init
            } else if starts_with(r, &segment_bytes()) {
                segment_request(skip(r, 8))
            } else {
                TrackRequest::Invalid(PathError::UnknownTrackAction)
            }
        },
    };
    Route::Track(n, req)
}

/// The blocking-reload parameters of a media manifest request.
#[derive(Debug, Clone, Copy, PartialEq, Eq, Structural)]
pub struct HlsRequest {
    pub msn: Option<u64>,
    pub part: Option<u16>,
    pub push: Option<u16>,
}

/// One query pair applied to the parameters read so far; values that do not
/// parse are ignored.
pub open spec fn apply_pair(r: HlsRequest, k: Seq<u8>, v: Seq<u8>) -> HlsRequest {
    if k == lit_msn() {
        match parse_unsigned(v, u64::MAX as int) {
            Some(x) => HlsRequest { msn: Some(x as u64), ..r },
            None => r,
        }
    } else if k == lit_hpart() {
        match parse_unsigned(v, u16::MAX as int) {
            Some(x) => HlsRequest { part: Some(x as u16), ..r },
            None => r,
        }
    } else if k == lit_push() {
        match parse_unsigned(v, u16::MAX as int) {
            Some(x) => HlsRequest { push: Some(x as u16), ..r },
            None => r,
        }
    } else {
        r
    }
}

/// The parameters read from a sequence of decoded query pairs, in order.
pub open spec fn request_of(pairs: Seq<(Vec<u8>, Vec<u8>)>) -> HlsRequest
    decreases pairs.len(),
{
    if pairs.len() == 0 {
        HlsRequest { msn: None, part: None, push: None }
    } else {
        apply_pair(request_of(pairs.drop_last()), pairs.last().0@, pairs.last().1@)
    }
}

/// The decoded query pairs of a request URI, as the url crate gives them.
pub uninterp spec fn url_query_pairs(uri: Seq<char>) -> Seq<(Seq<u8>, Seq<u8>)>;

/// Relies on url's `Url::parse` and `query_pairs`: the URI, taken relative to
/// an http origin, and its percent-decoded key/value pairs in order (none when
/// the URI does not parse).
#[verifier::external_body]
pub(crate) fn query_pairs(uri: &str) -> (r: Vec<(Vec<u8>, Vec<u8>)>)
    ensures
        r@.len() == url_query_pairs(uri@).len(),
        forall|i: int|
            0 <= i < r@.len() ==> (#[trigger] r@[i]).0@ == url_query_pairs(uri@)[i].0 && r@[i].1@
                == url_query_pairs(uri@)[i].1,
{
    match url::Url::parse(&format!("http://localhost{}", uri)) {
        Ok(u) => u.query_pairs().map(|(k, v)| (k.as_bytes().to_vec(), v.as_bytes().to_vec())).collect(),
        Err(_) => Vec::new(),
    }
}

/// Reads the blocking-reload parameters from decoded query pairs.
pub fn request_from_pairs(pairs: &Vec<(Vec<u8>, Vec<u8>)>) -> (r: HlsRequest)
    ensures
        r == request_of(pairs@),
{
    let msn_key = msn_bytes();
    let part_key = hpart_bytes();
    let push_key = push_bytes();
    let mut r = HlsRequest { msn: None, part: None, push: None };
    let mut i: usize = 0;
    while i < pairs.len()
        invariant
            i <= pairs@.len(),
            msn_key@ == lit_msn(),
            part_key@ == lit_hpart(),
            push_key@ == lit_push(),
            r == request_of(pairs@.take(i as int)),
        decreases pairs@.len() - i,
    {
        let (k, v) = &pairs[i];
        proof {
            assert(pairs@.take(i + 1).drop_last() =~= pairs@.take(i as int));
            assert(pairs@.take(i + 1).last() == pairs@[i as int]);
        }
        if equals(k.as_slice(), &msn_key) {
            match parse_u64(v.as_slice(), u64::MAX) {
                Some(x) => {
                    r = HlsRequest { msn: Some(x), ..r };
                },
                None => {},
            }
        } else if equals(k.as_slice(), &part_key) {
            match parse_u64(v.as_slice(), 0xffff) {
                Some(x) => {
                    r = HlsRequest { part: Some(x as u16), ..r };
                },
                None => {},
            }
        } else if equals(k.as_slice(), &push_key) {
            match parse_u64(v.as_slice(), 0xffff) {
                Some(x) => {
                    r = HlsRequest { push: Some(x as u16), ..r };
                },
                None => {},
            }
        }
        i = i + 1;
    }
    assert(pairs@.take(pairs@.len() as int) =~= pairs@);
    r
}

/// `q` holds the parameters read from the decoded query pairs of `uri`.
pub open spec fn uri_request(uri: Seq<char>, q: HlsRequest) -> bool {
    exists|pairs: Seq<(Vec<u8>, Vec<u8>)>|
        #![auto]
        q == request_of(pairs) && pairs.len() == url_query_pairs(uri).len() && forall|i: int|
            0 <= i < pairs.len() ==> pairs[i].0@ == url_query_pairs(uri)[i].0 && pairs[i].1@
                == url_query_pairs(uri)[i].1
}

/// The blocking-reload parameters of a request URI.
pub fn hls_request_params(uri: &str) -> (r: HlsRequest)
    ensures
        uri_request(uri@, r),
{
    let pairs = query_pairs(uri);
    request_from_pairs(&pairs)
}

/// What to do with a media manifest request, given the track's media
/// sequence number.
#[derive(Debug, Clone, Copy, PartialEq, Eq, Structural)]
pub enum ReloadDecision {
    /// Render the manifest now.
    Respond,
    /// Wait on the track's notifications first.
    Wait,
    /// Refuse: the request is more than one segment ahead of the live edge.
    TooEarly,
}

pub open spec fn spec_decision(current_msn: u64, req: HlsRequest) -> ReloadDecision {
    match req.msn {
        None => ReloadDecision::Respond,
        Some(m) => if m > current_msn + 1 {
            ReloadDecision::TooEarly
        } else if m == current_msn + 1 || (m == current_msn && req.part is Some) {
            ReloadDecision::Wait
        } else {
            ReloadDecision::Respond
        },
    }
}

/// Decides whether a media manifest request is answered now, waits, or is
/// refused as too far ahead of the live edge.
pub fn reload_decision(current_msn: u64, req: &HlsRequest) -> (r: ReloadDecision)
    ensures
        r == spec_decision(current_msn, *req),
{
    match req.msn {
        None => ReloadDecision::Respond,
        Some(m) => {
            if m as u128 > current_msn as u128 + 1 {
                ReloadDecision::TooEarly
            } else if m as u128 == current_msn as u128 + 1 || (m == current_msn && req.part.is_some()) {
                ReloadDecision::Wait
            } else {
                ReloadDecision::Respond
            }
        },
    }
}

/// A waiting request is answered once the published value reaches the
/// requested segment (and part, when one is named).
pub open spec fn spec_wakes(seq: TrackSequence, req: HlsRequest) -> bool {
    match req.msn {
        None => true,
        Some(m) => !(seq.seg < m || (seq.seg == m && (req.part matches Some(p) && seq.part < p))),
    }
}

/// Whether a waiting request is answered on the published value `seq`.
pub fn wakes(seq: &TrackSequence, req: &HlsRequest) -> (r: bool)
    ensures
        r == spec_wakes(*seq, *req),
{
    match req.msn {
        None => true,
        Some(m) => {
            if seq.seg < m {
                false
            } else if seq.seg == m {
                match req.part {
                    Some(p) => seq.part >= p,
                    None => true,
                }
            } else {
                true
            }
        },
    }
}

} // verus!
