//! Markup for a laid-out diagram: SVG elements, the SVG root and the HTML
//! page around it.

use vstd::prelude::*;
use vstd::string::*;
use crate::format::{decimal, decimal_string};
use crate::layout::{
    generate_plot_annotations, laid_out, extent, Segment, Subplot, Tick, LABEL_DROP, MARGIN, MIDLINE_LIFT,
    SUBPLOT_HEIGHT, WIDTH,
};
use crate::parse::{ErrorView, GffError, Source};
use crate::store::PlotData;

verus! {

/// The attribute that gives an arrow the arrowhead of its tool.
pub open spec fn marker_text(m: Option<Source>) -> Seq<char> {
    match m {
        Some(Source::OrfFinder) => "marker-end='url(#point_orf)'"@,
        Some(Source::Cmscan) => "marker-end='url(#point_cmscan)'"@,
        Some(Source::TrnaScan) => "marker-end='url(#point_trna)'"@,
        Some(Source::Barrnap) => "marker-end='url(#point_rrna)'"@,
        None => ""@,
    }
}

/// A horizontal line from `x1` to `x2` at height `y`; dashed and thin, or
/// solid and thick.
pub open spec fn axis_line_text(x1: u64, x2: u64, y: u64, dashed: bool) -> Seq<char> {
    "\n            <line x1='"@ + decimal(x1 as nat) + "' y1='"@ + decimal(y as nat) + "' x2='"@
        + decimal(x2 as nat) + "' y2='"@ + decimal(y as nat) + if dashed {
        "' stroke='black' stroke-dasharray='4' style = 'stroke-width: 1;' />\n"@
    } else {
        "' stroke='black' style = 'stroke-width: 3;' />\n"@
    }
}

/// The bold name of a sequence at (`x`, `y`).
pub open spec fn name_text(x: u64, y: u64, name: Seq<char>) -> Seq<char> {
    "\n                <text x='"@ + decimal(x as nat) + "' y='"@ + decimal(y as nat)
        + "' font-weight='bold' class='small' font-family='monospace'>"@ + name + "</text>"@
}

/// An arrow with its handlers, then a transparent circle at its head that
/// catches the pointer, which the arrowhead does not.
pub open spec fn segment_text(s: Segment) -> Seq<char> {
    "\n                <line x1='"@ + decimal(s.x1 as nat) + "' y1='"@ + decimal(s.y as nat) + "' x2='"@
        + decimal(s.x2 as nat) + "' y2='"@ + decimal(s.y as nat)
        + "' stroke='black' style = 'stroke-width: 3;' "@ + marker_text(s.marker)
        + " onmousemove='showTooltip(evt, "@ + s.hover@
        + ");' onmouseout='hideTooltip();' onclick='addTextOnClick(evt, "@ + s.label@ + ")'/>"@
        + "<circle r='5' fill='transparent' cx='"@ + decimal(s.x2 as nat) + "' cy='"@
        + decimal(s.y as nat) + "' onmousemove='showTooltip(evt, "@ + s.hover@
        + ");' onmouseout='hideTooltip();'></circle>"@
}

/// An axis label.
pub open spec fn tick_text(t: Tick) -> Seq<char> {
    "<text x='"@ + decimal(t.x as nat) + "' y='"@ + decimal(t.y as nat)
        + "' class='small' text-anchor='middle' font-family='monospace'>"@ + decimal(t.value as nat)
        + " bp"@ + "</text>\n"@
}

pub open spec fn segments_text(segs: Seq<Segment>) -> Seq<char>
    decreases segs.len(),
{
    if segs.len() == 0 {
        Seq::empty()
    } else {
        segments_text(segs.drop_last()) + segment_text(segs.last())
    }
}

pub open spec fn ticks_text(ticks: Seq<Tick>) -> Seq<char>
    decreases ticks.len(),
{
    if ticks.len() == 0 {
        Seq::empty()
    } else {
        ticks_text(ticks.drop_last()) + tick_text(ticks.last())
    }
}

/// The markup of one band: axis, midline, name, arrows, axis labels.
pub open spec fn subplot_text(s: Subplot) -> Seq<char> {
    axis_line_text(MARGIN, (WIDTH - MARGIN) as u64, s.baseline, false)
        + axis_line_text(MARGIN, (WIDTH - MARGIN) as u64, (s.baseline - MIDLINE_LIFT) as u64, true)
        + name_text(MARGIN, (s.baseline + MARGIN + LABEL_DROP - SUBPLOT_HEIGHT) as u64, s.name@)
        + segments_text(s.segments@) + "\n"@ + ticks_text(s.ticks@)
}

pub open spec fn subplots_text(subs: Seq<Subplot>) -> Seq<char>
    decreases subs.len(),
{
    if subs.len() == 0 {
        Seq::empty()
    } else {
        subplots_text(subs.drop_last()) + subplot_text(subs.last())
    }
}

fn append_num(s: &mut String, n: u64)
    ensures
        final(s)@ == old(s)@ + decimal(n as nat),
{
    let d = decimal_string(n);
    s.append(d.as_str());
}

fn marker_str(m: Option<Source>) -> (r: &'static str)
    ensures
        r@ == marker_text(m),
{
    match m {
        Some(Source::OrfFinder) => "marker-end='url(#point_orf)'",
        Some(Source::Cmscan) => "marker-end='url(#point_cmscan)'",
        Some(Source::TrnaScan) => "marker-end='url(#point_trna)'",
        Some(Source::Barrnap) => "marker-end='url(#point_rrna)'",
        None => "",
    }
}

fn push_axis_line(out: &mut String, x1: u64, x2: u64, y: u64, dashed: bool)
    ensures
        final(out)@ == old(out)@ + axis_line_text(x1, x2, y, dashed),
{
    let ghost start = out@;
    out.append("\n            <line x1='");
    append_num(out, x1);
    out.append("' y1='");
    append_num(out, y);
    out.append("' x2='");
    append_num(out, x2);
    out.append("' y2='");
    append_num(out, y);
    if dashed {
        out.append("' stroke='black' stroke-dasharray='4' style = 'stroke-width: 1;' />\n");
    } else {
        out.append("' stroke='black' style = 'stroke-width: 3;' />\n");
    }
    assert(out@ =~= start + axis_line_text(x1, x2, y, dashed));
}

fn push_name(out: &mut String, x: u64, y: u64, name: &String)
    ensures
        final(out)@ == old(out)@ + name_text(x, y, name@),
{
    let ghost start = out@;
    out.append("\n                <text x='");
    append_num(out, x);
    out.append("' y='");
    append_num(out, y);
    out.append("' font-weight='bold' class='small' font-family='monospace'>");
    out.append(name.as_str());
    out.append("</text>");
    assert(out@ =~= start + name_text(x, y, name@));
}

fn push_segment(out: &mut String, s: &Segment)
    ensures
        final(out)@ == old(out)@ + segment_text(*s),
{
    let ghost start = out@;
    out.append("\n                <line x1='");
    append_num(out, s.x1);
    out.append("' y1='");
    append_num(out, s.y);
    out.append("' x2='");
    append_num(out, s.x2);
    out.append("' y2='");
    append_num(out, s.y);
    out.append("' stroke='black' style = 'stroke-width: 3;' ");
    out.append(marker_str(s.marker));
    out.append(" onmousemove='showTooltip(evt, ");
    out.append(s.hover.as_str());
    out.append(");' onmouseout='hideTooltip();' onclick='addTextOnClick(evt, ");
    out.append(s.label.as_str());
    out.append(")'/>");
    out.append("<circle r='5' fill='transparent' cx='");
    append_num(out, s.x2);
    out.append("' cy='");
    append_num(out, s.y);
    out.append("' onmousemove='showTooltip(evt, ");
    out.append(s.hover.as_str());
    out.append(");' onmouseout='hideTooltip();'></circle>");
    assert(out@ =~= start + segment_text(*s));
}

fn push_tick(out: &mut String, t: Tick)
    ensures
        final(out)@ == old(out)@ + tick_text(t),
{
    let ghost start = out@;
    out.append("<text x='");
    append_num(out, t.x);
    out.append("' y='");
    append_num(out, t.y);
    out.append("' class='small' text-anchor='middle' font-family='monospace'>");
    append_num(out, t.value);
    out.append(" bp");
    out.append("</text>\n");
    assert(out@ =~= start + tick_text(t));
}

/// Writes the markup of one band.
pub fn render_subplot(s: &Subplot) -> (r: String)
    requires
        SUBPLOT_HEIGHT - MARGIN <= s.baseline <= u64::MAX - MARGIN - LABEL_DROP,
    ensures
        r@ == subplot_text(*s),
{
    let mut out = String::new();
    push_axis_line(&mut out, MARGIN, WIDTH - MARGIN, s.baseline, false);
    push_axis_line(&mut out, MARGIN, WIDTH - MARGIN, s.baseline - MIDLINE_LIFT, true);
    push_name(&mut out, MARGIN, s.baseline + MARGIN + LABEL_DROP - SUBPLOT_HEIGHT, &s.name);
    let ghost head = out@;
    let mut i: usize = 0;
    while i < s.segments.len()
        invariant
            i <= s.segments@.len(),
            out@ == head + segments_text(s.segments@.subrange(0, i as int)),
        decreases s.segments@.len() - i,
    {
        push_segment(&mut out, &s.segments[i]);
        assert(s.segments@.subrange(0, i + 1).drop_last() =~= s.segments@.subrange(0, i as int));
        assert(out@ =~= head + segments_text(s.segments@.subrange(0, i + 1)));
        i = i + 1;
    }
    assert(s.segments@.subrange(0, i as int) =~= s.segments@);
    out.append("\n");
    let ghost mid = out@;
    let mut j: usize = 0;
    assert(s.ticks@.subrange(0, 0) =~= Seq::<Tick>::empty());
    assert(mid =~= mid + ticks_text(s.ticks@.subrange(0, 0)));
    while j < s.ticks.len()
        invariant
            j <= s.ticks@.len(),
            out@ == mid + ticks_text(s.ticks@.subrange(0, j as int)),
        decreases s.ticks@.len() - j,
    {
        push_tick(&mut out, s.ticks[j]);
        assert(s.ticks@.subrange(0, j + 1).drop_last() =~= s.ticks@.subrange(0, j as int));
        assert(out@ =~= mid + ticks_text(s.ticks@.subrange(0, j + 1)));
        j = j + 1;
    }
    assert(s.ticks@.subrange(0, j as int) =~= s.ticks@);
    assert(out@ =~= subplot_text(*s));
    out
}


/// The page up to the diagram: title, tooltip style and tooltip box.
pub const HTML_HEAD: &'static str = "<!DOCTYPE html>
<html>
<head>
    <meta charset='UTF-8'>
    <title>Annotated Mito</title>
    <style type='text/css'>
        #tooltip {
                background: cornsilk;
                border: 1px solid black;
                border-radius: 5px;
                padding: 5px;
            }
    </style>
</head>

<body>
<!-- Tooltip div -->

    <div id='tooltip' display='none' style='position: absolute; display: none;'></div>

<!-- SVG here -->
    ";

/// The page after the diagram: the tooltip script.
pub const HTML_TAIL: &'static str = "
</body>

<script>
    function showTooltip(evt, text) {
        let tooltip = document.getElementById('tooltip');
        tooltip.innerHTML = text;
        tooltip.style.fontFamily = 'monospace';
        tooltip.style.display = 'block';
        tooltip.style.left = evt.pageX + 10 + 'px';
        tooltip.style.top = evt.pageY + 10 + 'px';
    }

    function hideTooltip() {
        var tooltip = document.getElementById('tooltip');
        tooltip.style.display = 'none';
    }
</script>
</html>
    ";

/// The arrowheads, one per tool, coloured from the palette: ORFs
/// `#26547c`, cmscan `#ef476f`, tRNAs `#ffd166`, rRNAs `#06d6a0`.
pub const SVG_DEFS: &'static str = "
        <defs>
            <marker id='point_orf' viewBox='0 0 10 10'
                refX='1' refY='5'
                markerUnits='strokeWidth'
                markerWidth='3' markerHeight='3'
                orient='auto'>
                <path d='M 0 0 L 10 5 L 0 10 z' fill='#26547c'/>
            </marker>
            <marker id='point_cmscan' viewBox='0 0 10 10'
                refX='1' refY='5'
                markerUnits='strokeWidth'
                markerWidth='3' markerHeight='3'
                orient='auto'>
                <path d='M 0 0 L 10 5 L 0 10 z' fill='#ef476f'/>
            </marker>
            <marker id='point_trna' viewBox='0 0 10 10'
                refX='1' refY='5'
                markerUnits='strokeWidth'
                markerWidth='3' markerHeight='3'
                orient='auto'>
                <path d='M 0 0 L 10 5 L 0 10 z' fill='#ffd166'/>
            </marker>
            <marker id='point_rrna' viewBox='0 0 10 10'
                refX='1' refY='5'
                markerUnits='strokeWidth'
                markerWidth='3' markerHeight='3'
                orient='auto'>
                <path d='M 0 0 L 10 5 L 0 10 z' fill='#06d6a0'/>
            </marker>
        </defs>
    ";

/// The end of the SVG root, with the group that clicked labels go to.
pub const SVG_TAIL: &'static str = "
    <g id='textGroup'></g>
    </svg>";

/// The SVG root `height` pixels tall around `body`.
pub open spec fn svg_text(height: nat, body: Seq<char>) -> Seq<char> {
    "<svg width='"@ + decimal(WIDTH as nat) + "' height='"@ + decimal(height) + "'>"@ + SVG_DEFS@ + body
        + SVG_TAIL@
}

/// The page around `svg`.
pub open spec fn html_text(svg: Seq<char>) -> Seq<char> {
    HTML_HEAD@ + svg + HTML_TAIL@
}

/// Wraps the diagram in an HTML page with a tooltip and its script.
pub fn make_html(svg: String) -> (r: String)
    ensures
        r@ == html_text(svg@),
{
    let mut out = String::from_str(HTML_HEAD);
    out.append(svg.as_str());
    out.append(HTML_TAIL);
    out
}

/// Wraps the markup of the bands in the SVG root, `height` pixels tall.
pub fn make_svg(height: u64, body: &String) -> (r: String)
    ensures
        r@ == svg_text(height as nat, body@),
{
    let mut out = String::from_str("<svg width='");
    append_num(&mut out, WIDTH);
    out.append("' height='");
    append_num(&mut out, height);
    out.append("'>");
    out.append(SVG_DEFS);
    out.append(body.as_str());
    out.append(SVG_TAIL);
    out
}

/// Writes the markup of every band, top band first.
pub fn render_subplots(subs: &Vec<Subplot>) -> (r: String)
    requires
        forall|i: int| 0 <= i < subs@.len() ==>
            SUBPLOT_HEIGHT - MARGIN <= (#[trigger] subs@[i]).baseline <= u64::MAX - MARGIN - LABEL_DROP,
    ensures
        r@ == subplots_text(subs@),
{
    let mut out = String::new();
    let mut i: usize = 0;
    assert(subs@.subrange(0, 0) =~= Seq::<Subplot>::empty());
    while i < subs.len()
        invariant
            i <= subs@.len(),
            out@ == subplots_text(subs@.subrange(0, i as int)),
            forall|i: int| 0 <= i < subs@.len() ==>
                SUBPLOT_HEIGHT - MARGIN <= (#[trigger] subs@[i]).baseline <= u64::MAX - MARGIN - LABEL_DROP,
        decreases subs@.len() - i,
    {
        let part = render_subplot(&subs[i]);
        out.append(part.as_str());
        assert(subs@.subrange(0, i + 1).drop_last() =~= subs@.subrange(0, i as int));
        i = i + 1;
    }
    assert(subs@.subrange(0, i as int) =~= subs@);
    out
}

impl PlotData {
    /// Draws the store as an HTML page: one band per sequence, the store's
    /// first sequence at the bottom, arrows lifted at random within their
    /// strand's band. Fails where a sequence's rows all end at position 0.
    pub fn plot(&self) -> (r: Result<String, GffError>)
        requires
            self.wf(),
            SUBPLOT_HEIGHT * (self@.len() + 1) <= u64::MAX,
        ensures
            match r {
                Ok(html) => exists|subs: Seq<Subplot>|
                    laid_out(subs, self@) && html@ == html_text(
                        svg_text((SUBPLOT_HEIGHT * self@.len()) as nat, subplots_text(subs)),
                    ),
                Err(e) => exists|k: int|
                    0 <= k < self@.len() && extent(#[trigger] self@[k].1) == 0
                        && e@ == ErrorView::DegenerateRange(self@[k].0),
            },
    {
        let n = self.entries().len();
        let height = SUBPLOT_HEIGHT * (n as u64);
        let subs = match generate_plot_annotations(self) {
            Ok(subs) => subs,
            Err(e) => return Err(e),
        };
        assert forall|i: int| 0 <= i < subs@.len() implies
            SUBPLOT_HEIGHT - MARGIN <= (#[trigger] subs@[i]).baseline <= u64::MAX - MARGIN - LABEL_DROP by {
            let idx = i + 1;
            assert(subs@[i].baseline == SUBPLOT_HEIGHT * idx - MARGIN);
            assert(SUBPLOT_HEIGHT <= SUBPLOT_HEIGHT * idx <= SUBPLOT_HEIGHT * n) by (nonlinear_arith)
                requires
                    1 <= idx <= n,
            ;
        }
        let body = render_subplots(&subs);
        let svg = make_svg(height, &body);
        Ok(make_html(svg))
    }
}

} // verus!
