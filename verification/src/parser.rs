//! The streaming frame parser.
//!
//! Drives the whole pipeline over a byte stream: recognises frame-start
//! markers, decodes each field of a frame through the encoding decoders and
//! the predictor engine, keeps two generations of frame history per frame
//! kind, resynchronises past corrupted frames, and accumulates statistics.

use crate::decode::{lemma_decode_pos, lemma_variable_at_pos, spec_variable, DecodeError};
use crate::headers::{FieldDef, Headers};
use crate::reader::{
    align8, lemma_align8_bounds, lemma_read_u8_pos, spec_peek_u8, spec_read_u8, Reader,
};
use vstd::prelude::*;

verus! {

/// Running statistics of one parse; read-only to callers.
#[derive(Debug, Clone, Copy, PartialEq, Eq, Structural)]
pub struct Stats {
    /// Successfully decoded main frames.
    pub main_frames: usize,
    /// Successfully decoded slow frames.
    pub slow_frames: usize,
    /// Successfully decoded GPS frames.
    pub gps_frames: usize,
    /// Firmware event markers seen.
    pub events: usize,
    /// Frames abandoned to corruption, each followed by a resync scan.
    pub corrupted_frames: usize,
    /// Bytes consumed so far.
    pub bytes: usize,
}

impl Stats {
    /// A fresh parse has consumed nothing.
    pub fn new() -> (r: Stats)
        ensures
            r == (Stats {
                main_frames: 0,
                slow_frames: 0,
                gps_frames: 0,
                events: 0,
                corrupted_frames: 0,
                bytes: 0,
            }),
    {
        Stats { main_frames: 0, slow_frames: 0, gps_frames: 0, events: 0, corrupted_frames: 0, bytes: 0 }
    }

    /// Total of all per-outcome counters.
    pub open spec fn total(self) -> int {
        self.main_frames + self.slow_frames + self.gps_frames + self.events
            + self.corrupted_frames
    }
}

/// One externally observed output of the parser.
#[derive(Debug, Clone, PartialEq, Eq)]
pub enum ParserEvent {
    /// A firmware event marker, with its raw event code.
    Event(u32),
    /// A decoded main frame: one value per main-frame field, in order.
    Main(Vec<u32>),
    /// A decoded slow frame.
    Slow(Vec<u32>),
    /// A decoded GPS frame.
    Gps(Vec<u32>),
}

/// The mathematical shape of a parser event.
pub enum EventView {
    Event(u32),
    Main(Seq<u32>),
    Slow(Seq<u32>),
    Gps(Seq<u32>),
}

impl View for ParserEvent {
    type V = EventView;

    closed spec fn view(&self) -> EventView {
        match self {
            ParserEvent::Event(c) => EventView::Event(*c),
            ParserEvent::Main(v) => EventView::Main(v@),
            ParserEvent::Slow(v) => EventView::Slow(v@),
            ParserEvent::Gps(v) => EventView::Gps(v@),
        }
    }
}

/// The value of field `i` in a history generation, when that generation
/// exists and covers the field.
pub open spec fn hist_at(h: Option<Seq<u32>>, i: nat) -> Option<u32> {
    match h {
        Some(s) => if i < s.len() {
            Some(s[i as int])
        } else {
            None
        },
        None => None,
    }
}

/// The view of an owned history generation.
pub open spec fn hist_view(h: Option<Vec<u32>>) -> Option<Seq<u32>> {
    match h {
        Some(v) => Some(v@),
        None => None,
    }
}

/// Looks up field `i` in a history generation.
fn hist_get(h: &Option<Vec<u32>>, i: usize) -> (r: Option<u32>)
    ensures
        r == hist_at(hist_view(*h), i as nat),
{
    match h {
        Some(v) => if i < v.len() {
            Some(v[i])
        } else {
            None
        },
        None => None,
    }
}

/// Extends a run of fields sharing one encoding: `k` fields from `start`
/// are already in the run; it grows while the next field has the same
/// encoding and the encoding's chunk size allows it.
pub open spec fn spec_run_extend(fields: Seq<FieldDef>, start: nat, k: nat) -> nat
    decreases fields.len() - (start + k),
{
    if start + k < fields.len() && k < fields[start as int].encoding.spec_max_chunk_size()
        && fields[(start + k) as int].encoding == fields[start as int].encoding {
        spec_run_extend(fields, start, k + 1)
    } else {
        k
    }
}

/// The length of the encoding run starting at field `start`: consecutive
/// fields with the same encoding, at most the encoding's chunk size.
pub open spec fn spec_run_len(fields: Seq<FieldDef>, start: nat) -> nat {
    spec_run_extend(fields, start, 1)
}

/// A run covers at least its seed and stays inside the field list and the
/// encoding's chunk size.
pub proof fn lemma_run_extend_bounds(fields: Seq<FieldDef>, start: nat, k: nat)
    requires
        1 <= k,
        start + k <= fields.len(),
        k <= fields[start as int].encoding.spec_max_chunk_size(),
    ensures
        k <= spec_run_extend(fields, start, k),
        start + spec_run_extend(fields, start, k) <= fields.len(),
        spec_run_extend(fields, start, k) <= fields[start as int].encoding.spec_max_chunk_size(),
    decreases fields.len() - (start + k),
{
    if start + k < fields.len() && k < fields[start as int].encoding.spec_max_chunk_size()
        && fields[(start + k) as int].encoding == fields[start as int].encoding {
        lemma_run_extend_bounds(fields, start, k + 1);
    }
}

/// The bounds of a whole run.
pub proof fn lemma_run_len_bounds(fields: Seq<FieldDef>, start: nat)
    requires
        start < fields.len(),
    ensures
        1 <= spec_run_len(fields, start),
        start + spec_run_len(fields, start) <= fields.len(),
        spec_run_len(fields, start) <= fields[start as int].encoding.spec_max_chunk_size(),
{
    lemma_run_extend_bounds(fields, start, 1);
}

/// Applies the predictors of one decoded run: `raw[j]` reconstructs field
/// `start + j` using the values `acc` decoded so far in this frame and the
/// two history generations. A motor-0 lookup that cannot be satisfied is
/// the mark of a broken frame definition; the frame is abandoned as
/// malformed (the parser's construction precondition rules it out).
pub open spec fn spec_apply_fields(
    headers: Headers,
    fields: Seq<FieldDef>,
    raw: Seq<u32>,
    j: nat,
    start: nat,
    acc: Seq<u32>,
    last: Option<Seq<u32>>,
    last_last: Option<Seq<u32>>,
    skipped: u32,
) -> Option<Seq<u32>>
    decreases raw.len() - j,
{
    if j >= raw.len() {
        Some(acc)
    } else {
        let fd = fields[(start + j) as int];
        let fi = (start + j) as nat;
        match fd.predictor.spec_apply(
            headers,
            raw[j as int],
            fd.signed,
            acc,
            hist_at(last, fi),
            hist_at(last_last, fi),
            skipped,
        ) {
            Ok(v) => spec_apply_fields(
                headers,
                fields,
                raw,
                j + 1,
                start,
                acc.push(v),
                last,
                last_last,
                skipped,
            ),
            Err(_) => None,
        }
    }
}

/// Decodes the fields of one frame from field index `i` on, with `acc` the
/// values already reconstructed: fields are decoded in runs of one shared
/// encoding, then each field's predictor turns its raw word into the
/// absolute value.
pub open spec fn spec_decode_frame_at(
    data: Seq<u8>,
    p: nat,
    headers: Headers,
    fields: Seq<FieldDef>,
    i: nat,
    acc: Seq<u32>,
    last: Option<Seq<u32>>,
    last_last: Option<Seq<u32>>,
    skipped: u32,
) -> (Result<Seq<u32>, DecodeError>, nat)
    decreases fields.len() - i,
    via spec_decode_frame_at_decreases
{
    if i >= fields.len() {
        (Ok(acc), p)
    } else {
        let run = spec_run_len(fields, i);
        let enc = fields[i as int].encoding;
        let (rr, p2) = enc.spec_decode(data, p, (run - 1) as nat);
        match rr {
            Err(e) => (Err(e), p2),
            Ok(raw) => {
                match spec_apply_fields(
                    headers,
                    fields,
                    raw,
                    0,
                    i,
                    acc,
                    last,
                    last_last,
                    skipped,
                ) {
                    Some(acc2) => spec_decode_frame_at(
                        data,
                        p2,
                        headers,
                        fields,
                        i + run,
                        acc2,
                        last,
                        last_last,
                        skipped,
                    ),
                    None => (Err(DecodeError::Malformed), p2),
                }
            },
        }
    }
}

#[via_fn]
proof fn spec_decode_frame_at_decreases(
    data: Seq<u8>,
    p: nat,
    headers: Headers,
    fields: Seq<FieldDef>,
    i: nat,
    acc: Seq<u32>,
    last: Option<Seq<u32>>,
    last_last: Option<Seq<u32>>,
    skipped: u32,
) {
    if i < fields.len() {
        lemma_run_len_bounds(fields, i);
    }
}

/// Decodes one whole frame body (after its marker byte).
pub open spec fn spec_decode_frame(
    data: Seq<u8>,
    p: nat,
    headers: Headers,
    fields: Seq<FieldDef>,
    last: Option<Seq<u32>>,
    last_last: Option<Seq<u32>>,
    skipped: u32,
) -> (Result<Seq<u32>, DecodeError>, nat) {
    spec_decode_frame_at(data, p, headers, fields, 0, Seq::empty(), last, last_last, skipped)
}

/// Decodes one frame body: every field, in order, by runs of one shared
/// encoding, each raw word reconstructed by its field's predictor.
#[verifier::rlimit(100)]
fn decode_frame(
    data: &mut Reader,
    headers: &Headers,
    fields: &Vec<FieldDef>,
    last: &Option<Vec<u32>>,
    last_last: &Option<Vec<u32>>,
    skipped: u32,
) -> (r: Result<Vec<u32>, DecodeError>)
    requires
        old(data).wf(),
    ensures
        final(data).wf(),
        final(data).bytes() == old(data).bytes(),
        ({
            let (sr, sp) = spec_decode_frame(
                old(data).bytes(),
                old(data).bit_pos(),
                *headers,
                fields@,
                hist_view(*last),
                hist_view(*last_last),
                skipped,
            );
            &&& final(data).bit_pos() == sp
            &&& match (r, sr) {
                (Ok(v), Ok(s)) => v@ == s && v@.len() == fields@.len(),
                (Err(e), Err(se)) => e == se,
                _ => false,
            }
        }),
{
    let nfields = fields.len();
    let mut values: Vec<u32> = Vec::new();
    let mut i: usize = 0;
    while i < nfields
        invariant
            data.wf(),
            data.bytes() == old(data).bytes(),
            i <= fields@.len(),
            nfields == fields@.len(),
            values@.len() == i,
            spec_decode_frame(
                old(data).bytes(),
                old(data).bit_pos(),
                *headers,
                fields@,
                hist_view(*last),
                hist_view(*last_last),
                skipped,
            ) == spec_decode_frame_at(
                data.bytes(),
                data.bit_pos(),
                *headers,
                fields@,
                i as nat,
                values@,
                hist_view(*last),
                hist_view(*last_last),
                skipped,
            ),
        decreases fields@.len() - i,
    {
        proof {
            lemma_run_len_bounds(fields@, i as nat);
        }
        let enc = fields[i].encoding;
        let max_chunk = enc.max_chunk_size();
        let mut run: usize = 1;
        while i + run < nfields && run < max_chunk && fields[i + run].encoding == enc
            invariant
                i < fields@.len(),
                nfields == fields@.len(),
                enc == fields@[i as int].encoding,
                max_chunk as nat == enc.spec_max_chunk_size(),
                1 <= run,
                i + run <= fields@.len(),
                run <= max_chunk,
                spec_run_len(fields@, i as nat) == spec_run_extend(fields@, i as nat, run as nat),
            decreases fields@.len() - (i + run),
        {
            run = run + 1;
        }
        proof {
            assert(spec_run_extend(fields@, i as nat, run as nat) == run as nat);
            assert(spec_run_len(fields@, i as nat) == run as nat);
        }
        let mut raw: Vec<u32> = Vec::new();
        match enc.decode_into(data, run - 1, &mut raw) {
            Err(e) => {
                return Err(e);
            },
            Ok(()) => {},
        }
        match apply_run(headers, fields, &raw, i, &mut values, last, last_last, skipped) {
            Err(e) => {
                return Err(e);
            },
            Ok(()) => {},
        }
        i = i + run;
    }
    Ok(values)
}

/// Reconstructs the fields of one decoded run, appending each absolute
/// value to the frame under construction.
fn apply_run(
    headers: &Headers,
    fields: &Vec<FieldDef>,
    raw: &Vec<u32>,
    i: usize,
    values: &mut Vec<u32>,
    last: &Option<Vec<u32>>,
    last_last: &Option<Vec<u32>>,
    skipped: u32,
) -> (r: Result<(), DecodeError>)
    requires
        i + raw@.len() <= fields@.len(),
        fields@.len() <= usize::MAX,
        old(values)@.len() == i,
    ensures
        match spec_apply_fields(
            *headers,
            fields@,
            raw@,
            0,
            i as nat,
            old(values)@,
            hist_view(*last),
            hist_view(*last_last),
            skipped,
        ) {
            Some(acc2) => r == Ok::<(), DecodeError>(()) && final(values)@ == acc2
                && final(values)@.len() == old(values)@.len() + raw@.len(),
            None => r == Err::<(), DecodeError>(DecodeError::Malformed),
        },
{
    let mut j: usize = 0;
    while j < raw.len()
        invariant
            j <= raw@.len(),
            i + raw@.len() <= fields@.len(),
            fields@.len() <= usize::MAX,
            values@.len() == i + j,
            spec_apply_fields(
                *headers,
                fields@,
                raw@,
                0,
                i as nat,
                old(values)@,
                hist_view(*last),
                hist_view(*last_last),
                skipped,
            ) == spec_apply_fields(
                *headers,
                fields@,
                raw@,
                j as nat,
                i as nat,
                values@,
                hist_view(*last),
                hist_view(*last_last),
                skipped,
            ),
        decreases raw@.len() - j,
    {
        let fd = &fields[i + j];
        let l = hist_get(last, i + j);
        let ll = hist_get(last_last, i + j);
        let w = raw[j];
        match fd.predictor.apply(headers, w, fd.signed, values.as_slice(), l, ll, skipped) {
            Ok(v) => {
                values.push(v);
            },
            Err(_) => {
                return Err(DecodeError::Malformed);
            },
        }
        j = j + 1;
    }
    Ok(())
}

/// The marker byte opening a main frame.
pub const MARKER_MAIN: u8 = 0x4D;

/// The marker byte opening a slow frame.
pub const MARKER_SLOW: u8 = 0x53;

/// The marker byte opening a GPS frame.
pub const MARKER_GPS: u8 = 0x47;

/// The marker byte opening a firmware event.
pub const MARKER_EVENT: u8 = 0x45;

/// Whether a byte opens a recognised frame.
pub open spec fn spec_is_frame_marker(b: u8) -> bool {
    b == MARKER_MAIN || b == MARKER_SLOW || b == MARKER_GPS || b == MARKER_EVENT
}

/// Whether a byte opens a recognised frame.
pub fn is_frame_marker(b: u8) -> (r: bool)
    ensures
        r == spec_is_frame_marker(b),
{
    b == MARKER_MAIN || b == MARKER_SLOW || b == MARKER_GPS || b == MARKER_EVENT
}

/// The position of the next recognised frame marker at or after `p` (the
/// resync scan); the end of the buffer when there is none.
pub open spec fn spec_resync(data: Seq<u8>, p: nat) -> nat
    decreases data.len() * 8 + 8 - p,
{
    match spec_peek_u8(data, p) {
        None => p,
        Some(b) => if spec_is_frame_marker(b) {
            p
        } else {
            spec_resync(data, align8(p) + 8)
        },
    }
}

/// The resync scan moves forward and never past the end.
pub proof fn lemma_resync_pos(data: Seq<u8>, p: nat)
    requires
        p <= data.len() * 8,
    ensures
        p <= spec_resync(data, p) <= data.len() * 8,
    decreases data.len() * 8 + 8 - p,
{
    match spec_peek_u8(data, p) {
        None => {},
        Some(b) => {
            if !spec_is_frame_marker(b) {
                lemma_align8_bounds(p, data.len());
                lemma_resync_pos(data, align8(p) + 8);
            }
        },
    }
}

/// Frame decoding moves the cursor forward and never past the end.
pub proof fn lemma_decode_frame_at_pos(
    data: Seq<u8>,
    p: nat,
    headers: Headers,
    fields: Seq<FieldDef>,
    i: nat,
    acc: Seq<u32>,
    last: Option<Seq<u32>>,
    last_last: Option<Seq<u32>>,
    skipped: u32,
)
    requires
        p <= data.len() * 8,
    ensures
        p <= spec_decode_frame_at(data, p, headers, fields, i, acc, last, last_last, skipped).1
            <= data.len() * 8,
    decreases fields.len() - i,
{
    if i < fields.len() {
        lemma_run_len_bounds(fields, i);
        let run = spec_run_len(fields, i);
        let enc = fields[i as int].encoding;
        lemma_decode_pos(enc, data, p, (run - 1) as nat);
        let (rr, p2) = enc.spec_decode(data, p, (run - 1) as nat);
        match rr {
            Err(_) => {},
            Ok(raw) => {
                match spec_apply_fields(headers, fields, raw, 0, i, acc, last, last_last, skipped) {
                    Some(acc2) => {
                        lemma_decode_frame_at_pos(
                            data,
                            p2,
                            headers,
                            fields,
                            i + run,
                            acc2,
                            last,
                            last_last,
                            skipped,
                        );
                    },
                    None => {},
                }
            },
        }
    }
}

/// Scans forward to the next recognised frame marker (or the end).
fn resync(data: &mut Reader)
    requires
        old(data).wf(),
    ensures
        final(data).wf(),
        final(data).bytes() == old(data).bytes(),
        final(data).bit_pos() == spec_resync(old(data).bytes(), old(data).bit_pos()),
{
    loop
        invariant
            data.wf(),
            data.bytes() == old(data).bytes(),
            spec_resync(old(data).bytes(), old(data).bit_pos()) == spec_resync(
                data.bytes(),
                data.bit_pos(),
            ),
        decreases data.total_bits() + 8 - data.bit_pos(),
    {
        proof {
            data.lemma_wf_bounds();
            lemma_align8_bounds(data.bit_pos(), data.bytes().len());
        }
        match data.peek_u8() {
            None => {
                return ;
            },
            Some(b) => {
                if is_frame_marker(b) {
                    return ;
                }
                let _ = data.read_u8();
            },
        }
    }
}

/// The complete state of a parse, as mathematical values: the buffer and
/// cursor, the header-derived definitions, the two history generations per
/// frame kind, the skipped-frame count feeding the increment predictor, the
/// statistics, and whether the end of the stream was reached.
pub struct ParserView {
    pub data: Seq<u8>,
    pub pos: nat,
    pub headers: Headers,
    pub main_last: Option<Seq<u32>>,
    pub main_last_last: Option<Seq<u32>>,
    pub slow_last: Option<Seq<u32>>,
    pub slow_last_last: Option<Seq<u32>>,
    pub gps_last: Option<Seq<u32>>,
    pub gps_last_last: Option<Seq<u32>>,
    pub skipped: u32,
    pub stats: Stats,
    pub done: bool,
}

/// The parser invariant: the cursor stays inside the buffer, and each
/// counted outcome consumed at least one byte, so the counters never
/// overflow; the byte count mirrors the cursor; the frame definitions
/// satisfy the motor-0 ordering contract.
pub open spec fn view_wf(v: ParserView) -> bool {
    &&& v.pos <= v.data.len() * 8
    &&& v.data.len() <= usize::MAX as nat / 8
    &&& v.stats.total() * 8 <= v.pos
    &&& v.stats.bytes == (v.pos + 7) / 8
    &&& v.headers.valid()
    &&& hists_wf(v)
}

/// Each history generation matches its frame definition.
pub open spec fn hists_wf(v: ParserView) -> bool {
    &&& hist_len_ok(v.main_last, v.headers.main_frame_def.fields@.len())
    &&& hist_len_ok(v.main_last_last, v.headers.main_frame_def.fields@.len())
    &&& hist_len_ok(v.slow_last, v.headers.slow_frame_def.fields@.len())
    &&& hist_len_ok(v.slow_last_last, v.headers.slow_frame_def.fields@.len())
    &&& (v.headers.gps_frame_def is Some ==> hist_len_ok(
        v.gps_last,
        v.headers.gps_frame_def->0.fields@.len(),
    ) && hist_len_ok(v.gps_last_last, v.headers.gps_frame_def->0.fields@.len()))
}

/// A history generation, when present, has one value per field of its
/// frame definition.
pub open spec fn hist_len_ok(h: Option<Seq<u32>>, n: nat) -> bool {
    match h {
        Some(s) => s.len() == n,
        None => true,
    }
}

/// Statistics with the byte count taken at cursor position `p`.
pub open spec fn stats_at(s: Stats, p: nat) -> Stats {
    Stats { bytes: ((p + 7) / 8) as usize, ..s }
}

/// The state after abandoning a corrupted frame at position `p`: one more
/// corrupted frame, one more skipped frame, and the cursor moved by the
/// resync scan to the next recognised marker.
pub open spec fn spec_corrupt(v: ParserView, p: nat) -> ParserView {
    let p2 = spec_resync(v.data, p);
    ParserView {
        pos: p2,
        skipped: v.skipped.wrapping_add(1),
        stats: stats_at(
            Stats { corrupted_frames: (v.stats.corrupted_frames + 1) as usize, ..v.stats },
            p2,
        ),
        ..v
    }
}

/// The work after one marker byte `m` has been consumed, the cursor now at
/// `v1.pos`: decode that frame kind and either yield its event with the
/// state rolled forward, or (on a decode failure or an unrecognised
/// marker) count the corruption, move past it with the resync scan, and
/// yield nothing yet.
#[verifier::opaque]
pub open spec fn spec_step(v1: ParserView, m: u8) -> (Option<EventView>, ParserView) {
    if m == MARKER_MAIN {
        let (r, p2) = spec_decode_frame(
            v1.data,
            v1.pos,
            v1.headers,
            v1.headers.main_frame_def.fields@,
            v1.main_last,
            v1.main_last_last,
            v1.skipped,
        );
        match r {
            Ok(vals) => (
                Some(EventView::Main(vals)),
                ParserView {
                    pos: p2,
                    main_last: Some(vals),
                    main_last_last: v1.main_last,
                    skipped: 0,
                    stats: stats_at(
                        Stats { main_frames: (v1.stats.main_frames + 1) as usize, ..v1.stats },
                        p2,
                    ),
                    ..v1
                },
            ),
            Err(_) => (None, spec_corrupt(v1, p2)),
        }
    } else if m == MARKER_SLOW {
        let (r, p2) = spec_decode_frame(
            v1.data,
            v1.pos,
            v1.headers,
            v1.headers.slow_frame_def.fields@,
            v1.slow_last,
            v1.slow_last_last,
            v1.skipped,
        );
        match r {
            Ok(vals) => (
                Some(EventView::Slow(vals)),
                ParserView {
                    pos: p2,
                    slow_last: Some(vals),
                    slow_last_last: v1.slow_last,
                    stats: stats_at(
                        Stats { slow_frames: (v1.stats.slow_frames + 1) as usize, ..v1.stats },
                        p2,
                    ),
                    ..v1
                },
            ),
            Err(_) => (None, spec_corrupt(v1, p2)),
        }
    } else if m == MARKER_GPS {
        match v1.headers.gps_frame_def {
            Some(gdef) => {
                let (r, p2) = spec_decode_frame(
                    v1.data,
                    v1.pos,
                    v1.headers,
                    gdef.fields@,
                    v1.gps_last,
                    v1.gps_last_last,
                    v1.skipped,
                );
                match r {
                    Ok(vals) => (
                        Some(EventView::Gps(vals)),
                        ParserView {
                            pos: p2,
                            gps_last: Some(vals),
                            gps_last_last: v1.gps_last,
                            stats: stats_at(
                                Stats {
                                    gps_frames: (v1.stats.gps_frames + 1) as usize,
                                    ..v1.stats
                                },
                                p2,
                            ),
                            ..v1
                        },
                    ),
                    Err(_) => (None, spec_corrupt(v1, p2)),
                }
            },
            None => (None, spec_corrupt(v1, v1.pos)),
        }
    } else if m == MARKER_EVENT {
        let (r, p2) = spec_variable(v1.data, v1.pos);
        match r {
            Ok(code) => (
                Some(EventView::Event(code)),
                ParserView {
                    pos: p2,
                    stats: stats_at(
                        Stats { events: (v1.stats.events + 1) as usize, ..v1.stats },
                        p2,
                    ),
                    ..v1
                },
            ),
            Err(_) => (None, spec_corrupt(v1, p2)),
        }
    } else {
        (None, spec_corrupt(v1, v1.pos))
    }
}

/// A step keeps the buffer and the done flag, and the cursor moves forward
/// without leaving the buffer.
pub proof fn lemma_step_pos(v1: ParserView, m: u8)
    requires
        v1.pos <= v1.data.len() * 8,
    ensures
        ({
            let (e, v2) = spec_step(v1, m);
            &&& v1.pos <= v2.pos <= v1.data.len() * 8
            &&& v2.data == v1.data
            &&& v2.done == v1.done
        }),
{
    reveal(spec_step);
    if m == MARKER_MAIN {
        lemma_decode_frame_at_pos(
            v1.data,
            v1.pos,
            v1.headers,
            v1.headers.main_frame_def.fields@,
            0,
            Seq::empty(),
            v1.main_last,
            v1.main_last_last,
            v1.skipped,
        );
        let p2 = spec_decode_frame(
            v1.data,
            v1.pos,
            v1.headers,
            v1.headers.main_frame_def.fields@,
            v1.main_last,
            v1.main_last_last,
            v1.skipped,
        ).1;
        lemma_resync_pos(v1.data, p2);
    } else if m == MARKER_SLOW {
        lemma_decode_frame_at_pos(
            v1.data,
            v1.pos,
            v1.headers,
            v1.headers.slow_frame_def.fields@,
            0,
            Seq::empty(),
            v1.slow_last,
            v1.slow_last_last,
            v1.skipped,
        );
        let p2 = spec_decode_frame(
            v1.data,
            v1.pos,
            v1.headers,
            v1.headers.slow_frame_def.fields@,
            v1.slow_last,
            v1.slow_last_last,
            v1.skipped,
        ).1;
        lemma_resync_pos(v1.data, p2);
    } else if m == MARKER_GPS {
        match v1.headers.gps_frame_def {
            Some(gdef) => {
                lemma_decode_frame_at_pos(
                    v1.data,
                    v1.pos,
                    v1.headers,
                    gdef.fields@,
                    0,
                    Seq::empty(),
                    v1.gps_last,
                    v1.gps_last_last,
                    v1.skipped,
                );
                let p2 = spec_decode_frame(
                    v1.data,
                    v1.pos,
                    v1.headers,
                    gdef.fields@,
                    v1.gps_last,
                    v1.gps_last_last,
                    v1.skipped,
                ).1;
                lemma_resync_pos(v1.data, p2);
            },
            None => {
                lemma_resync_pos(v1.data, v1.pos);
            },
        }
    } else if m == MARKER_EVENT {
        lemma_variable_at_pos(v1.data, v1.pos, 0, 0);
        let p2 = spec_variable(v1.data, v1.pos).1;
        lemma_resync_pos(v1.data, p2);
    } else {
        lemma_resync_pos(v1.data, v1.pos);
    }
}

/// One call of the parser: read a marker byte and take the step it names;
/// on corruption, keep stepping past resync gaps until a frame decodes or
/// the data runs out. At the end of the data the parser is done and yields
/// nothing.
pub open spec fn spec_next(v: ParserView) -> (Option<EventView>, ParserView)
    decreases v.data.len() * 8 + 8 - v.pos,
    via spec_next_decreases
{
    if v.done {
        (None, v)
    } else {
        let (b, p1) = spec_read_u8(v.data, v.pos);
        match b {
            None => (None, ParserView { pos: p1, done: true, stats: stats_at(v.stats, p1), ..v }),
            Some(m) => {
                let (e, v2) = spec_step(ParserView { pos: p1, ..v }, m);
                match e {
                    Some(ev) => (Some(ev), v2),
                    None => spec_next(v2),
                }
            },
        }
    }
}

#[via_fn]
proof fn spec_next_decreases(v: ParserView) {
    if !v.done {
        let (b, p1) = spec_read_u8(v.data, v.pos);
        if b is Some {
            assert(align8(v.pos) + 8 <= v.data.len() * 8);
            assert(v.pos <= align8(v.pos));
            lemma_step_pos(ParserView { pos: p1, ..v }, b->0);
        }
    }
}

/// A parse makes progress: every yielded event strictly advances the
/// cursor, the cursor never leaves the buffer, and when nothing is yielded
/// the parser is done. Any loop pulling events therefore terminates on any
/// finite input: there is no infinite resync loop.
pub proof fn lemma_next_progress(v: ParserView)
    requires
        v.pos <= v.data.len() * 8,
    ensures
        ({
            let (e, v2) = spec_next(v);
            &&& v.pos <= v2.pos <= v.data.len() * 8
            &&& v2.data == v.data
            &&& (e is Some ==> v2.pos > v.pos)
            &&& (e is None ==> v2.done)
        }),
    decreases v.data.len() * 8 + 8 - v.pos,
{
    if !v.done {
        let (b, p1) = spec_read_u8(v.data, v.pos);
        lemma_read_u8_pos(v.data, v.pos);
        match b {
            None => {},
            Some(m) => {
                let v1 = ParserView { pos: p1, ..v };
                lemma_step_pos(v1, m);
                let (e, v2) = spec_step(v1, m);
                if e is None {
                    lemma_next_progress(v2);
                }
            },
        }
    }
}

/// Every event of the rest of the parse, with the state the parse ends in.
pub open spec fn spec_run(v: ParserView) -> (Seq<EventView>, ParserView)
    decreases v.data.len() * 8 + 8 - v.pos,
    via spec_run_decreases
{
    let (e, v2) = spec_next(v);
    match e {
        None => (Seq::empty(), v2),
        Some(ev) => {
            let (rest, vf) = spec_run(v2);
            (seq![ev] + rest, vf)
        },
    }
}

#[via_fn]
proof fn spec_run_decreases(v: ParserView) {
    if v.pos <= v.data.len() * 8 {
        lemma_next_progress(v);
    } else {
        if !v.done {
            assert(v.pos <= align8(v.pos));
        }
    }
}

/// Parsing is a pure function of the byte buffer and the headers: two
/// parses of equal state yield identical event sequences and identical
/// final statistics. Parsing the same buffer twice changes nothing.
pub proof fn lemma_parse_deterministic(a: ParserView, b: ParserView)
    requires
        a == b,
    ensures
        spec_run(a).0 == spec_run(b).0,
        spec_run(a).1.stats == spec_run(b).1.stats,
{
}

/// Copies a frame's value array (one generation of history keeps it while
/// the event hands it out).
fn clone_words(v: &Vec<u32>) -> (r: Vec<u32>)
    ensures
        r@ == v@,
{
    let mut out: Vec<u32> = Vec::new();
    let mut i: usize = 0;
    while i < v.len()
        invariant
            i <= v@.len(),
            out@ == v@.subrange(0, i as int),
        decreases v@.len() - i,
    {
        out.push(v[i]);
        proof {
            assert(out@ =~= v@.subrange(0, i + 1));
        }
        i = i + 1;
    }
    proof {
        assert(out@ =~= v@);
    }
    out
}

/// The state a fresh parser starts from: the cursor at the head of the
/// buffer, no history, empty statistics.
pub open spec fn initial_view(data: Seq<u8>, headers: Headers) -> ParserView {
    ParserView {
        data,
        pos: 0,
        headers,
        main_last: None,
        main_last_last: None,
        slow_last: None,
        slow_last_last: None,
        gps_last: None,
        gps_last_last: None,
        skipped: 0,
        stats: Stats {
            main_frames: 0,
            slow_frames: 0,
            gps_frames: 0,
            events: 0,
            corrupted_frames: 0,
            bytes: 0,
        },
        done: false,
    }
}

/// The streaming parser: a pull-based sequence of [`ParserEvent`]s over one
/// byte buffer, with its own history and statistics and no shared state.
pub struct DataParser {
    reader: Reader,
    headers: Headers,
    main_last: Option<Vec<u32>>,
    main_last_last: Option<Vec<u32>>,
    slow_last: Option<Vec<u32>>,
    slow_last_last: Option<Vec<u32>>,
    gps_last: Option<Vec<u32>>,
    gps_last_last: Option<Vec<u32>>,
    skipped_frames: u32,
    stats: Stats,
    done: bool,
}

impl View for DataParser {
    type V = ParserView;

    closed spec fn view(&self) -> ParserView {
        ParserView {
            data: self.reader.bytes(),
            pos: self.reader.bit_pos(),
            headers: self.headers,
            main_last: hist_view(self.main_last),
            main_last_last: hist_view(self.main_last_last),
            slow_last: hist_view(self.slow_last),
            slow_last_last: hist_view(self.slow_last_last),
            gps_last: hist_view(self.gps_last),
            gps_last_last: hist_view(self.gps_last_last),
            skipped: self.skipped_frames,
            stats: self.stats,
            done: self.done,
        }
    }
}

impl DataParser {
    /// The parser's invariant; established by [`DataParser::new`] and kept
    /// by every step.
    pub closed spec fn inv(self) -> bool {
        &&& self.reader.wf()
        &&& view_wf(self@)
    }

    /// The invariant includes the view-level well-formedness.
    pub proof fn lemma_inv(self)
        requires
            self.inv(),
        ensures
            view_wf(self@),
    {
    }

    /// Starts a parse over `data`, positioned at the start of the
    /// frame-data section, driven by the header-derived definitions.
    /// Headers that break the motor-0 ordering contract (an invalid header
    /// reference, fatal for the log) are ruled out up front; check with
    /// [`Headers::is_valid`].
    pub fn new(data: Vec<u8>, headers: Headers) -> (r: DataParser)
        requires
            data@.len() <= usize::MAX as nat / 8,
            headers.valid(),
        ensures
            r.inv(),
            r@ == initial_view(data@, headers),
    {
        DataParser {
            reader: Reader::new(data),
            headers,
            main_last: None,
            main_last_last: None,
            slow_last: None,
            slow_last_last: None,
            gps_last: None,
            gps_last_last: None,
            skipped_frames: 0,
            stats: Stats::new(),
            done: false,
        }
    }

    /// The running statistics.
    pub fn stats(&self) -> (r: Stats)
        ensures
            r == self@.stats,
    {
        self.stats
    }

    /// Whether the end of the stream was reached.
    pub fn is_done(&self) -> (r: bool)
        ensures
            r == self@.done,
    {
        self.done
    }

    /// Abandons a corrupted frame: counts it, and scans forward to the
    /// next recognised marker.
    fn recover(&mut self)
        requires
            old(self).reader.wf(),
            old(self)@.pos <= old(self)@.data.len() * 8,
            old(self)@.data.len() <= usize::MAX as nat / 8,
            old(self)@.stats.total() * 8 + 8 <= old(self)@.pos,
            old(self)@.headers.valid(),
            hists_wf(old(self)@),
        ensures
            final(self).inv(),
            final(self)@ == spec_corrupt(old(self)@, old(self)@.pos),
    {
        proof {
            lemma_resync_pos(self@.data, self@.pos);
        }
        self.stats.corrupted_frames = self.stats.corrupted_frames + 1;
        self.skipped_frames = self.skipped_frames.wrapping_add(1);
        resync(&mut self.reader);
        self.stats.bytes = self.reader.byte_offset();
    }

    /// Handles one marker byte, exactly as [`spec_step`] describes: yields
    /// the decoded event, or recovers from the corruption and yields
    /// nothing yet.
    #[verifier::rlimit(100)]
    fn step(&mut self, m: u8) -> (r: Option<ParserEvent>)
        requires
            old(self).reader.wf(),
            old(self)@.pos <= old(self)@.data.len() * 8,
            old(self)@.data.len() <= usize::MAX as nat / 8,
            old(self)@.stats.total() * 8 + 8 <= old(self)@.pos,
            old(self)@.headers.valid(),
            hists_wf(old(self)@),
        ensures
            final(self).inv(),
            ({
                let (ev, v2) = spec_step(old(self)@, m);
                &&& (match r {
                    Some(e) => Some(e@),
                    None => None::<EventView>,
                }) == ev
                &&& final(self)@ == v2
            }),
    {
        proof {
            reveal(spec_step);
        }
        let ghost v1 = self@;
        if m == MARKER_MAIN {
            let res = decode_frame(
                &mut self.reader,
                &self.headers,
                &self.headers.main_frame_def.fields,
                &self.main_last,
                &self.main_last_last,
                self.skipped_frames,
            );
            proof {
                lemma_decode_frame_at_pos(
                    v1.data,
                    v1.pos,
                    v1.headers,
                    v1.headers.main_frame_def.fields@,
                    0,
                    Seq::empty(),
                    v1.main_last,
                    v1.main_last_last,
                    v1.skipped,
                );
            }
            match res {
                Ok(values) => {
                    core::mem::swap(&mut self.main_last, &mut self.main_last_last);
                    self.main_last = Some(clone_words(&values));
                    self.skipped_frames = 0;
                    self.stats.main_frames = self.stats.main_frames + 1;
                    self.stats.bytes = self.reader.byte_offset();
                    proof {
                        assert(self@ == spec_step(v1, m).1);
                    }
                    Some(ParserEvent::Main(values))
                },
                Err(_) => {
                    self.recover();
                    None
                },
            }
        } else if m == MARKER_SLOW {
            let res = decode_frame(
                &mut self.reader,
                &self.headers,
                &self.headers.slow_frame_def.fields,
                &self.slow_last,
                &self.slow_last_last,
                self.skipped_frames,
            );
            proof {
                lemma_decode_frame_at_pos(
                    v1.data,
                    v1.pos,
                    v1.headers,
                    v1.headers.slow_frame_def.fields@,
                    0,
                    Seq::empty(),
                    v1.slow_last,
                    v1.slow_last_last,
                    v1.skipped,
                );
            }
            match res {
                Ok(values) => {
                    core::mem::swap(&mut self.slow_last, &mut self.slow_last_last);
                    self.slow_last = Some(clone_words(&values));
                    self.stats.slow_frames = self.stats.slow_frames + 1;
                    self.stats.bytes = self.reader.byte_offset();
                    proof {
                        assert(self@ == spec_step(v1, m).1);
                    }
                    Some(ParserEvent::Slow(values))
                },
                Err(_) => {
                    self.recover();
                    None
                },
            }
        } else if m == MARKER_GPS {
            if self.headers.gps_frame_def.is_some() {
                let res = match &self.headers.gps_frame_def {
                    Some(gdef) => decode_frame(
                        &mut self.reader,
                        &self.headers,
                        &gdef.fields,
                        &self.gps_last,
                        &self.gps_last_last,
                        self.skipped_frames,
                    ),
                    None => Err(DecodeError::EndOfData),
                };
                proof {
                    lemma_decode_frame_at_pos(
                        v1.data,
                        v1.pos,
                        v1.headers,
                        v1.headers.gps_frame_def->0.fields@,
                        0,
                        Seq::empty(),
                        v1.gps_last,
                        v1.gps_last_last,
                        v1.skipped,
                    );
                }
                match res {
                    Ok(values) => {
                        core::mem::swap(&mut self.gps_last, &mut self.gps_last_last);
                        self.gps_last = Some(clone_words(&values));
                        self.stats.gps_frames = self.stats.gps_frames + 1;
                        self.stats.bytes = self.reader.byte_offset();
                        proof {
                            assert(self@ == spec_step(v1, m).1);
                        }
                        Some(ParserEvent::Gps(values))
                    },
                    Err(_) => {
                        self.recover();
                        None
                    },
                }
            } else {
                self.recover();
                None
            }
        } else if m == MARKER_EVENT {
            let res = crate::decode::variable(&mut self.reader);
            proof {
                lemma_variable_at_pos(v1.data, v1.pos, 0, 0);
            }
            match res {
                Ok(code) => {
                    self.stats.events = self.stats.events + 1;
                    self.stats.bytes = self.reader.byte_offset();
                    proof {
                        assert(self@ == spec_step(v1, m).1);
                    }
                    Some(ParserEvent::Event(code))
                },
                Err(_) => {
                    self.recover();
                    None
                },
            }
        } else {
            self.recover();
            None
        }
    }

    /// Produces the next event: fully decodes exactly one frame (and skips
    /// any resync gaps before it) and returns, or yields nothing once the
    /// data is exhausted. Exactly the step [`spec_next`] describes.
    pub fn next(&mut self) -> (r: Option<ParserEvent>)
        requires
            old(self).inv(),
        ensures
            final(self).inv(),
            ({
                let (ev, v2) = spec_next(old(self)@);
                &&& (match r {
                    Some(e) => Some(e@),
                    None => None::<EventView>,
                }) == ev
                &&& final(self)@ == v2
            }),
    {
        if self.done {
            return None;
        }
        loop
            invariant
                self.inv(),
                !self@.done,
                spec_next(old(self)@) == spec_next(self@),
            decreases self@.data.len() * 8 + 8 - self@.pos,
        {
            let ghost v = self@;
            proof {
                lemma_read_u8_pos(v.data, v.pos);
            }
            match self.reader.read_u8() {
                None => {
                    self.done = true;
                    self.stats.bytes = self.reader.byte_offset();
                    return None;
                },
                Some(m) => {
                    proof {
                        assert(self@ == (ParserView { pos: spec_read_u8(v.data, v.pos).1, ..v }));
                        lemma_step_pos(self@, m);
                    }
                    let res = self.step(m);
                    match res {
                        Some(e) => {
                            return Some(e);
                        },
                        None => {
                        },
                    }
                },
            }
        }
    }
    /// Decodes every remaining event. The pull loop provably terminates on
    /// any finite input, because each event strictly advances the cursor.
    pub fn parse_all(&mut self) -> (evs: Vec<ParserEvent>)
        requires
            old(self).inv(),
        ensures
            final(self).inv(),
            ({
                let (sevs, vf) = spec_run(old(self)@);
                &&& evs@.map_values(|e: ParserEvent| e@) == sevs
                &&& final(self)@ == vf
            }),
    {
        let mut evs: Vec<ParserEvent> = Vec::new();
        loop
            invariant
                self.inv(),
                spec_run(old(self)@).0 == evs@.map_values(|e: ParserEvent| e@) + spec_run(
                    self@,
                ).0,
                spec_run(old(self)@).1 == spec_run(self@).1,
            decreases self@.data.len() * 8 + 8 - self@.pos, (if self@.done {
                0int
            } else {
                1int
            }),
        {
            let ghost v = self@;
            proof {
                self.lemma_inv();
                lemma_next_progress(v);
            }
            match self.next() {
                None => {
                    proof {
                        assert(evs@.map_values(|e: ParserEvent| e@) + Seq::<
                            EventView,
                        >::empty() =~= evs@.map_values(|e: ParserEvent| e@));
                    }
                    return evs;
                },
                Some(e) => {
                    let ghost before = evs@.map_values(|ev: ParserEvent| ev@);
                    evs.push(e);
                    proof {
                        assert(evs@.map_values(|ev: ParserEvent| ev@) =~= before.push(e@));
                        assert(seq![e@] + spec_run(self@).0 =~= Seq::<EventView>::empty().push(
                            e@,
                        ) + spec_run(self@).0);
                        assert(before.push(e@) + spec_run(self@).0 =~= before + (Seq::<
                            EventView,
                        >::empty().push(e@) + spec_run(self@).0));
                    }
                },
            }
        }
    }

}

} // verus!
