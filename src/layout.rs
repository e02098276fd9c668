//! Placement of each sequence's rows on a fixed-size canvas.

use vstd::prelude::*;
use crate::format::{grouped, group_thousands};
use crate::parse::{parse_source, source_of, GffError, ErrorView, Row, RowView, Source, Strand};
use crate::scale::{lemma_scale_monotonic, scale_x, scaled};
use crate::store::{rows_view, PlotData};

verus! {

/// Blank space around each subplot, in pixels.
pub const MARGIN: u64 = 35;
/// Width of the whole diagram, in pixels.
pub const WIDTH: u64 = 1200;
/// Height of the band given to each sequence, in pixels.
pub const SUBPLOT_HEIGHT: u64 = 200;
/// Distance from the baseline up to the dashed midline.
pub const MIDLINE_LIFT: u64 = 75;
/// Distance from the baseline down to the axis labels.
pub const TICK_DROP: u64 = 15;
/// Offset of the sequence name below the top of its band.
pub const LABEL_DROP: u64 = 15;

/// A feature drawn as a horizontal arrow from `x1` to `x2` at height `y`.
#[derive(Debug)]
pub struct Segment {
    pub x1: u64,
    pub x2: u64,
    pub y: u64,
    /// The arrowhead, after the feature's tool; none for an unknown tool.
    pub marker: Option<Source>,
    /// Shown while the pointer rests on the arrow.
    pub hover: String,
    /// Placed on the diagram by a click.
    pub label: String,
}

/// An axis label: `value` base pairs, written at (`x`, `y`).
#[derive(Clone, Copy, Debug, PartialEq, Eq, Structural)]
pub struct Tick {
    pub x: u64,
    pub y: u64,
    pub value: u64,
}

/// The band of one sequence.
#[derive(Debug)]
pub struct Subplot {
    pub name: String,
    /// 1 for the band at the top of the diagram.
    pub index: u64,
    /// Height of the axis line.
    pub baseline: u64,
    pub segments: Vec<Segment>,
    pub ticks: Vec<Tick>,
}

/// The furthest position that any of the rows reaches.
pub open spec fn extent(rows: Seq<RowView>) -> u64
    decreases rows.len(),
{
    if rows.len() == 0 {
        0
    } else {
        let prev = extent(rows.drop_last());
        let r = rows.last();
        let m = if r.start <= r.end { r.end } else { r.start };
        if m > prev { m } else { prev }
    }
}

/// The pixel column of a base-pair position on an axis `extent` long.
pub open spec fn pixel(pos: u64, extent: u64) -> int {
    scaled(pos as int, 0, extent as int, MARGIN as int, (WIDTH - MARGIN) as int)
}

/// Where a row's arrow starts and ends: reverse features point left.
pub open spec fn arrow_ends(row: RowView, extent: u64) -> (int, int) {
    if row.strand == Strand::Reverse {
        (pixel(row.end, extent), pixel(row.start, extent))
    } else {
        (pixel(row.start, extent), pixel(row.end, extent))
    }
}

/// How far above the baseline a row's arrow may be drawn, lowest and
/// highest: reverse features sit above the midline, others below it.
pub open spec fn lift_band(strand: Strand) -> (u64, u64) {
    if strand == Strand::Reverse {
        (80, (SUBPLOT_HEIGHT - MARGIN - 25) as u64)
    } else {
        (10, 70)
    }
}

/// Height of the axis line of band `index`.
pub open spec fn baseline_of(index: nat) -> int {
    SUBPLOT_HEIGHT * index - MARGIN
}

/// Text shown while the pointer rests on a row's arrow.
pub open spec fn hover_text(row: RowView) -> Seq<char> {
    "\"<b>"@ + row.feature_name + "</b>\" + \"<br/>\" + \""@ + grouped(row.start as nat) + " &rarr; "@
        + grouped(row.end as nat) + " bp\""@
}

/// Text placed by a click on a row's arrow.
pub open spec fn click_text(row: RowView) -> Seq<char> {
    "\""@ + row.feature_name + "\""@
}

/// Axis label `i` of six: `i / 5` of the extent, to the nearest base pair.
pub open spec fn tick_value(i: nat, extent: u64) -> nat {
    ((2 * extent * i + 5) / 10) as nat
}

/// Axis label `i` of six, below the baseline; the first is pinned to the
/// left margin.
pub open spec fn tick_at(i: nat, extent: u64, baseline: u64) -> Tick {
    Tick {
        x: if i == 0 { MARGIN } else { pixel(tick_value(i, extent) as u64, extent) as u64 },
        y: (baseline + TICK_DROP) as u64,
        value: tick_value(i, extent) as u64,
    }
}

/// The arrow of `row` as drawn `lift` pixels above `baseline`.
pub open spec fn arrow_of(s: Segment, row: RowView, extent: u64, baseline: u64, lift: u64) -> bool {
    &&& s.x1 == arrow_ends(row, extent).0
    &&& s.x2 == arrow_ends(row, extent).1
    &&& s.y == baseline - lift
    &&& s.marker == source_of(row.source)
    &&& s.hover@ == hover_text(row)
    &&& s.label@ == click_text(row)
}

/// The band `index` drawn for sequence `name` from `rows`, whatever the
/// jitter drew. Only rows that reach past position 0 can be drawn.
pub open spec fn subplot_of(s: Subplot, index: nat, name: Seq<char>, rows: Seq<RowView>) -> bool {
    &&& extent(rows) > 0
    &&& s.name@ == name
    &&& s.index == index
    &&& s.baseline == baseline_of(index)
    &&& s.segments@.len() == rows.len()
    &&& forall|i: int| 0 <= i < rows.len() ==> {
        let row = #[trigger] rows[i];
        let band = lift_band(row.strand);
        let seg = s.segments@[i];
        &&& band.0 <= s.baseline - seg.y <= band.1
        &&& arrow_of(seg, row, extent(rows), s.baseline, (s.baseline - seg.y) as u64)
    }
    &&& s.ticks@.len() == 6
    &&& forall|i: int| 0 <= i < 6 ==> #[trigger] s.ticks@[i] == tick_at(i as nat, extent(rows), s.baseline)
}

/// Relies on rand::rng and rand::Rng::random_range: a number drawn from the
/// inclusive range `lo..=hi`, which must not be empty.
#[verifier::external_body]
fn random_between(lo: u64, hi: u64) -> (r: u64)
    requires
        lo <= hi,
    ensures
        lo <= r <= hi,
{
    rand::Rng::random_range(&mut rand::rng(), lo..=hi)
}

/// The furthest position that any row reaches.
pub fn rows_extent(rows: &Vec<Row>) -> (r: u64)
    ensures
        r == extent(rows_view(rows@)),
{
    let ghost v = rows_view(rows@);
    let mut m: u64 = 0;
    let mut i: usize = 0;
    assert(v.subrange(0, 0) =~= Seq::<RowView>::empty());
    while i < rows.len()
        invariant
            i <= rows@.len(),
            v == rows_view(rows@),
            m == extent(v.subrange(0, i as int)),
        decreases rows@.len() - i,
    {
        let r = &rows[i];
        let e = if r.start <= r.end { r.end } else { r.start };
        if e > m {
            m = e;
        }
        assert(v.subrange(0, i + 1).drop_last() =~= v.subrange(0, i as int));
        i = i + 1;
    }
    assert(v.subrange(0, i as int) =~= v);
    m
}

proof fn lemma_extent_bounds(rows: Seq<RowView>, i: int)
    requires
        0 <= i < rows.len(),
    ensures
        rows[i].start <= extent(rows),
        rows[i].end <= extent(rows),
    decreases rows.len(),
{
    if i < rows.len() - 1 {
        lemma_extent_bounds(rows.drop_last(), i);
    }
}

/// Bounds of the pixel column of a position within the extent.
proof fn lemma_pixel_in_canvas(pos: u64, extent: u64)
    requires
        0 < extent,
        pos <= extent,
    ensures
        MARGIN <= pixel(pos, extent) <= WIDTH - MARGIN,
{
    lemma_scale_monotonic(0, pos as int, 0, extent as int, MARGIN as int, (WIDTH - MARGIN) as int);
    lemma_scale_monotonic(pos as int, extent as int, 0, extent as int, MARGIN as int, (WIDTH - MARGIN) as int);
    crate::scale::lemma_scale_boundaries(0, extent as int, MARGIN as int, (WIDTH - MARGIN) as int);
}

/// The pixel column of `pos` on an axis `extent` long.
fn pixel_of(pos: u64, extent: u64) -> (r: u64)
    requires
        0 < extent,
        pos <= extent,
    ensures
        r == pixel(pos, extent),
        MARGIN <= r <= WIDTH - MARGIN,
{
    proof {
        lemma_pixel_in_canvas(pos, extent);
    }
    scale_x(pos, 0, extent, MARGIN as u32, (WIDTH - MARGIN) as u32) as u64
}

/// The text shown while the pointer rests on a row's arrow.
pub fn hover_string(row: &Row) -> (r: String)
    ensures
        r@ == hover_text(row@),
{
    let mut s = String::from_str("\"<b>");
    s.append(row.feature_name.as_str());
    s.append("</b>\" + \"<br/>\" + \"");
    let a = group_thousands(row.start);
    s.append(a.as_str());
    s.append(" &rarr; ");
    let b = group_thousands(row.end);
    s.append(b.as_str());
    s.append(" bp\"");
    s
}

/// The text placed by a click on a row's arrow.
pub fn click_string(row: &Row) -> (r: String)
    ensures
        r@ == click_text(row@),
{
    let mut s = String::from_str("\"");
    s.append(row.feature_name.as_str());
    s.append("\"");
    s
}

/// Draws `row` as an arrow `lift` pixels above `baseline`, on an axis whose
/// last position is `extent`.
pub fn place_row(row: &Row, extent: u64, baseline: u64, lift: u64) -> (r: Segment)
    requires
        0 < extent,
        row.start <= extent,
        row.end <= extent,
        lift <= baseline,
    ensures
        arrow_of(r, row@, extent, baseline, lift),
{
    let a = pixel_of(row.start, extent);
    let b = pixel_of(row.end, extent);
    let (x1, x2) = match row.strand {
        Strand::Reverse => (b, a),
        _ => (a, b),
    };
    Segment {
        x1,
        x2,
        y: baseline - lift,
        marker: parse_source(&row.source),
        hover: hover_string(row),
        label: click_string(row),
    }
}

/// Axis label `i` of six for an axis `extent` long.
pub fn make_tick(i: u64, extent: u64, baseline: u64) -> (r: Tick)
    requires
        i <= 5,
        0 < extent,
        baseline + TICK_DROP <= u64::MAX,
    ensures
        r == tick_at(i as nat, extent, baseline),
{
    assert((extent as int) * (i as int) <= 5 * (u64::MAX as int)) by (nonlinear_arith)
        requires
            i <= 5,
            extent <= u64::MAX,
    ;
    let p: u128 = (extent as u128) * (i as u128);
    assert(2 * (p as int) == 2 * (extent as int) * (i as int)) by (nonlinear_arith)
        requires
            p == (extent as int) * (i as int),
    ;
    assert(p <= 5 * (extent as int)) by (nonlinear_arith)
        requires
            p == (extent as int) * (i as int),
            i <= 5,
    ;
    let wide: u128 = (2 * p + 5) / 10;
    assert(wide <= extent) by (nonlinear_arith)
        requires
            wide == (2 * (p as int) + 5) / 10,
            p == (extent as int) * (i as int),
            i <= 5,
            0 < extent,
    ;
    let value = wide as u64;
    let x = if i == 0 {
        MARGIN
    } else {
        pixel_of(value, extent)
    };
    Tick { x, y: baseline + TICK_DROP, value }
}

/// Lays out the band `index` for the sequence `name`. Each arrow is lifted
/// by a random amount within its strand's band, so that neighbouring
/// features overlap less.
pub fn layout_subplot(index: u64, name: &String, rows: &Vec<Row>) -> (r: Result<Subplot, GffError>)
    requires
        1 <= index,
        SUBPLOT_HEIGHT * index <= u64::MAX,
    ensures
        match r {
            Ok(s) => subplot_of(s, index as nat, name@, rows_view(rows@)),
            Err(e) => extent(rows_view(rows@)) == 0
                && e@ == ErrorView::DegenerateRange(name@),
        },
{
    let ghost v = rows_view(rows@);
    let ext = rows_extent(rows);
    if ext == 0 {
        return Err(GffError::DegenerateRange(name.clone()));
    }
    let baseline = SUBPLOT_HEIGHT * index - MARGIN;
    let mut segments: Vec<Segment> = Vec::new();
    let mut i: usize = 0;
    while i < rows.len()
        invariant
            i <= rows@.len(),
            v == rows_view(rows@),
            ext == extent(v),
            0 < ext,
            baseline == baseline_of(index as nat),
            baseline >= SUBPLOT_HEIGHT - MARGIN,
            segments@.len() == i,
            forall|j: int| 0 <= j < i ==> {
                let row = #[trigger] v[j];
                let band = lift_band(row.strand);
                let seg = segments@[j];
                &&& band.0 <= baseline - seg.y <= band.1
                &&& arrow_of(seg, row, ext, baseline, (baseline - seg.y) as u64)
            },
        decreases rows@.len() - i,
    {
        let row = &rows[i];
        proof {
            lemma_extent_bounds(v, i as int);
        }
        let (lo, hi) = match row.strand {
            Strand::Reverse => (80, SUBPLOT_HEIGHT - MARGIN - 25),
            _ => (10, 70),
        };
        let lift = random_between(lo, hi);
        let seg = place_row(row, ext, baseline, lift);
        segments.push(seg);
        i = i + 1;
    }
    let mut ticks: Vec<Tick> = Vec::new();
    let mut t: u64 = 0;
    while t <= 5
        invariant
            t <= 6,
            0 < ext,
            baseline + TICK_DROP <= u64::MAX,
            ticks@.len() == t,
            forall|j: int| 0 <= j < t ==> #[trigger] ticks@[j] == tick_at(j as nat, ext, baseline),
        decreases 6 - t,
    {
        ticks.push(make_tick(t, ext, baseline));
        t = t + 1;
    }
    Ok(Subplot { name: name.clone(), index, baseline, segments, ticks })
}

/// `subs` draws the store `d`, one band per sequence: band `m` (counted
/// from the top, from 0) shows entry `n - 1 - m` of `n`, so the store's
/// first sequence is at the bottom.
pub open spec fn laid_out(subs: Seq<Subplot>, d: Seq<(Seq<char>, Seq<RowView>)>) -> bool {
    &&& subs.len() == d.len()
    &&& forall|m: int| #![trigger subs[m]]
        0 <= m < d.len() ==> subplot_of(subs[m], (m + 1) as nat, d[d.len() - 1 - m].0, d[d.len() - 1 - m].1)
}

/// Lays out every sequence of the store, one band each. The store's first
/// sequence gets the bottom band: band `m` (counted from the top, from 0)
/// shows entry `n - 1 - m` of `n`.
pub fn generate_plot_annotations(data: &PlotData) -> (r: Result<Vec<Subplot>, GffError>)
    requires
        data.wf(),
        SUBPLOT_HEIGHT * data@.len() <= u64::MAX,
    ensures
        match r {
            Ok(subs) => laid_out(subs@, data@),
            Err(e) => exists|k: int| 0 <= k < data@.len() && extent(#[trigger] data@[k].1) == 0
                && e@ == ErrorView::DegenerateRange(data@[k].0),
        },
{
    let entries = data.entries();
    let n = entries.len();
    let mut subs: Vec<Subplot> = Vec::new();
    let mut m: usize = 0;
    while m < n
        invariant
            n == data@.len(),
            crate::store::entries_view(entries@) == data@,
            SUBPLOT_HEIGHT * n <= u64::MAX,
            m <= n,
            subs@.len() == m,
            forall|j: int| #![trigger subs@[j]]
                0 <= j < m ==> subplot_of(subs@[j], (j + 1) as nat, data@[n - 1 - j].0, data@[n - 1 - j].1),
        decreases n - m,
    {
        let k = n - 1 - m;
        let entry = &entries[k];
        assert(data@[k as int] == (entry.0@, rows_view(entry.1@)));
        let res = layout_subplot((m + 1) as u64, &entry.0, &entry.1);
        let ghost before = subs@;
        match res {
            Ok(sub) => {
                subs.push(sub);
            },
            Err(e) => {
                assert(extent(data@[k as int].1) == 0);
                return Err(e);
            },
        }
        assert(data@[k as int].0 == entry.0@);
        assert(data@[k as int].1 == rows_view(entry.1@));
        assert forall|j: int| #![trigger subs@[j]]
            0 <= j < m + 1 implies subplot_of(
                subs@[j],
                (j + 1) as nat,
                data@[n - 1 - j].0,
                data@[n - 1 - j].1,
            ) by {
            if j < m {
                assert(subs@[j] == before[j]);
            } else {
                assert(res matches Ok(x) && subs@[j] == x);
            }
        }
        m = m + 1;
    }
    assert(laid_out(subs@, data@));
    Ok(subs)
}

/// A layout has exactly one band per sequence of the store: as many bands as
/// names, each name on its own band, and the bands stacked one subplot height
/// apart, the store's first name at the bottom.
pub proof fn lemma_one_band_per_sequence(subs: Seq<Subplot>, d: Seq<(Seq<char>, Seq<RowView>)>)
    requires
        laid_out(subs, d),
    ensures
        subs.len() == d.len(),
        forall|i: int| #![trigger d[i]]
            0 <= i < d.len() ==> subs[d.len() - 1 - i].name@ == d[i].0
                && subs[d.len() - 1 - i].baseline == SUBPLOT_HEIGHT * (d.len() - i) - MARGIN,
        forall|m: int| #![trigger subs[m]]
            0 <= m < subs.len() ==> subs[m].name@ == d[d.len() - 1 - m].0
                && subs[m].baseline == SUBPLOT_HEIGHT * (m + 1) - MARGIN,
{
    assert forall|i: int| #![trigger d[i]]
        0 <= i < d.len() implies subs[d.len() - 1 - i].name@ == d[i].0
            && subs[d.len() - 1 - i].baseline == SUBPLOT_HEIGHT * (d.len() - i) - MARGIN by {
        let m = d.len() - 1 - i;
        assert(subplot_of(subs[m], (m + 1) as nat, d[d.len() - 1 - m].0, d[d.len() - 1 - m].1));
    }
    assert forall|m: int| #![trigger subs[m]]
        0 <= m < subs.len() implies subs[m].name@ == d[d.len() - 1 - m].0
            && subs[m].baseline == SUBPLOT_HEIGHT * (m + 1) - MARGIN by {
        assert(subplot_of(subs[m], (m + 1) as nat, d[d.len() - 1 - m].0, d[d.len() - 1 - m].1));
    }
}

/// Forward and unstranded arrows point right; reverse arrows point left.
pub proof fn lemma_arrow_direction(row: RowView, extent: u64)
    requires
        0 < extent,
        row.start <= row.end,
    ensures
        row.strand != Strand::Reverse ==> arrow_ends(row, extent).0 <= arrow_ends(row, extent).1,
        row.strand == Strand::Reverse ==> arrow_ends(row, extent).0 >= arrow_ends(row, extent).1,
{
    lemma_scale_monotonic(
        row.start as int,
        row.end as int,
        0,
        extent as int,
        MARGIN as int,
        (WIDTH - MARGIN) as int,
    );
}

/// In a drawn band, the arrow of every forward or unstranded row runs left
/// to right, and that of every reverse row right to left.
pub proof fn lemma_segments_follow_strand(s: Subplot, index: nat, name: Seq<char>, rows: Seq<RowView>, i: int)
    requires
        subplot_of(s, index, name, rows),
        0 <= i < rows.len(),
        rows[i].start <= rows[i].end,
    ensures
        rows[i].strand != Strand::Reverse ==> s.segments@[i].x1 <= s.segments@[i].x2,
        rows[i].strand == Strand::Reverse ==> s.segments@[i].x1 >= s.segments@[i].x2,
{
    let row = rows[i];
    assert(arrow_of(s.segments@[i], row, extent(rows), s.baseline, (s.baseline - s.segments@[i].y) as u64));
    lemma_arrow_direction(row, extent(rows));
}

} // verus!
