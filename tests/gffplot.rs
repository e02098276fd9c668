use gffplot::format::{format_axis_label_len, format_bp_pretty, group_thousands};
use gffplot::layout::{generate_plot_annotations, layout_subplot, place_row, rows_extent, Subplot};
use gffplot::parse::{
    feature_label, get_attribute, normalize_record, parse_source, parse_strand, GffError, Record, Row,
    Source, Strand,
};
use gffplot::render::{make_html, make_svg, render_subplot, HTML_HEAD, HTML_TAIL};
use gffplot::scale::scale_x;
use gffplot::store::{key_less, parse_gff, PlotData};

fn rec(seq: &str, source: &str, ftype: &str, start: u64, end: u64, strand: &str, attrs: &[(&str, &str)]) -> Record {
    Record {
        seqname: seq.to_string(),
        source: source.to_string(),
        feature_type: ftype.to_string(),
        start,
        end,
        strand: strand.to_string(),
        attributes: attrs.iter().map(|(k, v)| (k.to_string(), v.to_string())).collect(),
    }
}

fn orf(seq: &str, start: u64, end: u64, strand: &str) -> Record {
    rec(
        seq,
        "ORFfinder",
        "CDS",
        start,
        end,
        strand,
        &[("pfam_accession", "PF00001"), ("target_name", "cox1"), ("description", "oxidase")],
    )
}

fn row(name: &str, start: u64, end: u64, strand: Strand) -> Row {
    Row {
        feature_name: name.to_string(),
        source: "cmscan".to_string(),
        feature_type: "gene".to_string(),
        start,
        end,
        strand,
    }
}

#[test]
fn pretty_groups_thousands() {
    assert_eq!(format_bp_pretty(1234567), "1,234,567");
    assert_eq!(format_bp_pretty(999), "999");
    assert_eq!(format_bp_pretty(1000), "1,000");
    assert_eq!(format_bp_pretty(0), "0");
    assert_eq!(format_bp_pretty(100000), "100,000");
    assert_eq!(group_thousands(18446744073709551615), "18,446,744,073,709,551,615");
}

#[test]
fn axis_label_appends_bp() {
    assert_eq!(format_axis_label_len(0), "0 bp");
    assert_eq!(format_axis_label_len(16569), "16569 bp");
}

#[test]
fn scale_hits_both_ends() {
    assert_eq!(scale_x(0, 0, 100, 35, 1165), 35);
    assert_eq!(scale_x(100, 0, 100, 35, 1165), 1165);
    assert_eq!(scale_x(7, 7, 9, 3, 4), 3);
    assert_eq!(scale_x(9, 7, 9, 3, 4), 4);
    assert_eq!(scale_x(50, 0, 100, 35, 1165), 600);
}

#[test]
fn scale_does_not_clamp() {
    assert_eq!(scale_x(200, 0, 100, 35, 1165), 2295);
    assert_eq!(scale_x(0, 10, 110, 0, 100), -10);
    assert_eq!(scale_x(0, 3, 5, 0, 1), -2);
    assert_eq!(scale_x(1, 0, 2, 10, 0), 5);
}

#[test]
fn sources_and_strands_are_recognised() {
    assert_eq!(parse_source(&"ORFfinder".to_string()), Some(Source::OrfFinder));
    assert_eq!(parse_source(&"cmscan".to_string()), Some(Source::Cmscan));
    assert_eq!(parse_source(&"tRNAscan-SE".to_string()), Some(Source::TrnaScan));
    assert_eq!(parse_source(&"barrnap:0.9".to_string()), Some(Source::Barrnap));
    assert_eq!(parse_source(&"barrnap".to_string()), None);
    assert_eq!(parse_strand(&"+".to_string()), Some(Strand::Forward));
    assert_eq!(parse_strand(&"-".to_string()), Some(Strand::Reverse));
    assert_eq!(parse_strand(&".".to_string()), Some(Strand::Unknown));
    assert_eq!(parse_strand(&"?".to_string()), Some(Strand::Unknown));
    assert_eq!(parse_strand(&"x".to_string()), None);
}

#[test]
fn attribute_lookup_takes_first_value() {
    let r = rec("s", "cmscan", "gene", 1, 2, "+", &[("a", "1"), ("b", "2"), ("a", "3")]);
    assert_eq!(get_attribute(&r.attributes, "a").map(|s| s.as_str()), Some("1"));
    assert_eq!(get_attribute(&r.attributes, "b").map(|s| s.as_str()), Some("2"));
    assert_eq!(get_attribute(&r.attributes, "c"), None);
}

#[test]
fn labels_follow_each_tool() {
    let r = normalize_record(&orf("s", 1, 9, "+")).unwrap();
    assert_eq!(r.feature_name, "Pfam accession: PF00001\nTarget name: cox1\nDescription: oxidase");
    let c = rec("s", "cmscan", "ncRNA", 1, 9, "-", &[("description", "RNase P")]);
    assert_eq!(normalize_record(&c).unwrap().feature_name, "Description: RNase P");
    let t = rec("s", "tRNAscan-SE", "tRNA", 1, 9, "+", &[("gene_biotype", "tRNA"), ("anticodon", "GCA")]);
    assert_eq!(normalize_record(&t).unwrap().feature_name, "tRNA: GCA");
    let b = rec("s", "barrnap:0.9", "rRNA", 4, 9, "-", &[("note", "partial"), ("product", "16S")]);
    let rb = normalize_record(&b).unwrap();
    assert_eq!(rb.feature_name, "16S: partial");
    assert_eq!(rb.source, "barrnap:0.9");
    assert_eq!(rb.feature_type, "rRNA");
    assert_eq!((rb.start, rb.end, rb.strand), (4, 9, Strand::Reverse));
}

#[test]
fn orffinder_without_description_is_missing_attribute() {
    let r = rec("s", "ORFfinder", "CDS", 1, 9, "+", &[("pfam_accession", "PF1"), ("target_name", "t")]);
    match normalize_record(&r) {
        Err(GffError::MissingAttribute(k)) => assert_eq!(k, "description"),
        other => panic!("unexpected {:?}", other),
    }
    match feature_label(Source::TrnaScan, &r.attributes) {
        Err(GffError::MissingAttribute(k)) => assert_eq!(k, "gene_biotype"),
        other => panic!("unexpected {:?}", other),
    }
}

#[test]
fn unknown_tool_is_unknown_source() {
    let r = rec("s", "unknown_tool", "CDS", 1, 9, "+", &[("description", "d")]);
    match normalize_record(&r) {
        Err(GffError::UnknownSource(s)) => assert_eq!(s, "unknown_tool"),
        other => panic!("unexpected {:?}", other),
    }
}

#[test]
fn bad_strand_is_malformed() {
    let r = rec("s", "cmscan", "gene", 1, 9, "*", &[("description", "d")]);
    match normalize_record(&r) {
        Err(GffError::MalformedStrand(s)) => assert_eq!(s, "*"),
        other => panic!("unexpected {:?}", other),
    }
}

#[test]
fn key_order_is_lexicographic() {
    assert!(key_less(&"a".to_string(), &"b".to_string()));
    assert!(key_less(&"ab".to_string(), &"b".to_string()));
    assert!(key_less(&"a".to_string(), &"ab".to_string()));
    assert!(!key_less(&"b".to_string(), &"ab".to_string()));
    assert!(!key_less(&"a".to_string(), &"a".to_string()));
    assert!(key_less(&"Z".to_string(), &"a".to_string()));
}

#[test]
fn grouping_sorts_names_and_keeps_row_order() {
    let recs = vec![
        orf("zeta", 500, 900, "+"),
        rec("alpha", "cmscan", "gene", 1, 50, "-", &[("description", "x")]),
        rec("zeta", "tRNAscan-SE", "exon", 1, 2, "+", &[]),
        orf("zeta", 10, 20, "-"),
        orf("mid", 3, 4, "."),
    ];
    let d = parse_gff(&recs).unwrap();
    let e = d.entries();
    let names: Vec<&str> = e.iter().map(|(k, _)| k.as_str()).collect();
    assert_eq!(names, vec!["alpha", "mid", "zeta"]);
    assert_eq!(e[2].1.len(), 2);
    assert_eq!((e[2].1[0].start, e[2].1[1].start), (500, 10));
    assert_eq!(e[0].1[0].feature_name, "Description: x");
}

#[test]
fn first_bad_record_stops_grouping() {
    let recs = vec![
        orf("a", 1, 2, "+"),
        rec("a", "tRNAscan-SE", "exon", 1, 2, "+", &[]),
        rec("b", "mystery", "gene", 1, 2, "+", &[]),
        rec("c", "cmscan", "gene", 1, 2, "+", &[]),
    ];
    match parse_gff(&recs) {
        Err(GffError::UnknownSource(s)) => assert_eq!(s, "mystery"),
        other => panic!("unexpected {:?}", other.map(|d| d.entries().len())),
    }
}

#[test]
fn add_row_merges_equal_names() {
    let mut d = PlotData::new();
    d.add_row("b".to_string(), row("x", 1, 2, Strand::Forward));
    d.add_row("a".to_string(), row("y", 1, 2, Strand::Forward));
    d.add_row("b".to_string(), row("z", 1, 2, Strand::Forward));
    let e = d.entries();
    assert_eq!(e.len(), 2);
    assert_eq!(e[0].0, "a");
    assert_eq!(e[1].1.len(), 2);
    assert_eq!(e[1].1[1].feature_name, "z");
}

#[test]
fn extent_is_furthest_end_not_last_row() {
    let rows = vec![row("a", 100, 500, Strand::Forward), row("b", 10, 100, Strand::Forward)];
    assert_eq!(rows_extent(&rows), 500);
    assert_eq!(rows_extent(&vec![]), 0);
    let s = layout_subplot(1, &"s".to_string(), &rows).unwrap();
    assert_eq!(s.segments[0].x2, 1165);
    assert_eq!(s.segments[1].x1, 35 + (1130 * 10) / 500);
}

#[test]
fn arrows_point_with_their_strand() {
    let f = place_row(&row("f", 100, 400, Strand::Forward), 1000, 165, 20);
    assert!(f.x1 <= f.x2);
    assert_eq!((f.x1, f.x2, f.y), (148, 487, 145));
    let r = place_row(&row("r", 100, 400, Strand::Reverse), 1000, 165, 20);
    assert!(r.x1 >= r.x2);
    assert_eq!((r.x1, r.x2), (487, 148));
    let u = place_row(&row("u", 100, 400, Strand::Unknown), 1000, 165, 20);
    assert!(u.x1 <= u.x2);
    assert_eq!(f.marker, Some(Source::Cmscan));
    assert_eq!(f.hover, "\"<b>f</b>\" + \"<br/>\" + \"100 &rarr; 400 bp\"");
    assert_eq!(f.label, "\"f\"");
}

#[test]
fn hover_text_uses_separators() {
    let s = place_row(&row("g", 1234, 16569, Strand::Forward), 16569, 165, 10);
    assert_eq!(s.hover, "\"<b>g</b>\" + \"<br/>\" + \"1,234 &rarr; 16,569 bp\"");
}

#[test]
fn jitter_stays_in_strand_band() {
    let rows = vec![row("f", 1, 10, Strand::Forward), row("r", 1, 10, Strand::Reverse), row("u", 1, 10, Strand::Unknown)];
    for _ in 0..50 {
        let s = layout_subplot(2, &"s".to_string(), &rows).unwrap();
        assert_eq!(s.baseline, 365);
        for (i, seg) in s.segments.iter().enumerate() {
            let lift = s.baseline - seg.y;
            if i == 1 {
                assert!((80..=140).contains(&lift));
            } else {
                assert!((10..=70).contains(&lift));
            }
        }
    }
}

#[test]
fn ticks_are_six_fifths() {
    let rows = vec![row("a", 1, 1000, Strand::Forward)];
    let s = layout_subplot(1, &"s".to_string(), &rows).unwrap();
    let values: Vec<u64> = s.ticks.iter().map(|t| t.value).collect();
    assert_eq!(values, vec![0, 200, 400, 600, 800, 1000]);
    let xs: Vec<u64> = s.ticks.iter().map(|t| t.x).collect();
    assert_eq!(xs, vec![35, 261, 487, 713, 939, 1165]);
    assert!(s.ticks.iter().all(|t| t.y == 180));
    let odd = layout_subplot(1, &"s".to_string(), &vec![row("a", 1, 7, Strand::Forward)]).unwrap();
    let values: Vec<u64> = odd.ticks.iter().map(|t| t.value).collect();
    assert_eq!(values, vec![0, 1, 3, 4, 6, 7]);
}

#[test]
fn zero_extent_is_degenerate() {
    let rows = vec![row("a", 0, 0, Strand::Forward)];
    match layout_subplot(1, &"s".to_string(), &rows) {
        Err(GffError::DegenerateRange(s)) => assert_eq!(s, "s"),
        other => panic!("unexpected {:?}", other.map(|s| s.index)),
    }
    let d = parse_gff(&vec![orf("z", 0, 0, "+"), orf("y", 1, 5, "+")]).unwrap();
    assert!(matches!(d.plot(), Err(GffError::DegenerateRange(s)) if s == "z"));
}

#[test]
fn bands_are_stacked_in_reverse() {
    let d = parse_gff(&vec![orf("a", 1, 5, "+"), orf("b", 1, 5, "+"), orf("c", 1, 5, "+")]).unwrap();
    let subs: Vec<Subplot> = generate_plot_annotations(&d).unwrap();
    let names: Vec<&str> = subs.iter().map(|s| s.name.as_str()).collect();
    assert_eq!(names, vec!["c", "b", "a"]);
    let ys: Vec<u64> = subs.iter().map(|s| s.baseline).collect();
    assert_eq!(ys, vec![165, 365, 565]);
}

#[test]
fn subplot_markup_has_axis_and_name() {
    let s = layout_subplot(1, &"chrM".to_string(), &vec![row("a", 1, 10, Strand::Forward)]).unwrap();
    let m = render_subplot(&s);
    assert!(m.starts_with("\n            <line x1='35' y1='165' x2='1165' y2='165' stroke='black' style = 'stroke-width: 3;' />\n"));
    assert!(m.contains("<line x1='35' y1='90' x2='1165' y2='90' stroke='black' stroke-dasharray='4'"));
    assert!(m.contains("<text x='35' y='15' font-weight='bold' class='small' font-family='monospace'>chrM</text>"));
    assert!(m.contains("marker-end='url(#point_cmscan)'"));
    assert!(m.ends_with(">10 bp</text>\n"));
    assert_eq!(m.matches("<text").count(), 7);
}

#[test]
fn page_wraps_svg() {
    let page = make_html("<svg/>".to_string());
    assert_eq!(page, format!("{}<svg/>{}", HTML_HEAD, HTML_TAIL));
    let svg = make_svg(400, &"BODY".to_string());
    assert!(svg.starts_with("<svg width='1200' height='400'>"));
    assert!(svg.contains("BODY"));
    assert!(svg.contains("fill='#26547c'"));
    assert!(svg.ends_with("</svg>"));
}

#[test]
fn two_sequences_end_to_end() {
    let recs = vec![orf("seq1", 1, 900, "+"), orf("seq2", 5, 700, "-")];
    let d = parse_gff(&recs).unwrap();
    let html = d.plot().unwrap();
    assert!(html.starts_with("<!DOCTYPE html>"));
    assert!(html.trim_end().ends_with("</html>"));
    assert_eq!(html.matches("<svg").count(), 1);
    assert_eq!(html.matches("</svg>").count(), 1);
    assert!(html.contains("<svg width='1200' height='400'>"));
    let base = |y: u64| format!("<line x1='35' y1='{y}' x2='1165' y2='{y}' stroke='black' style = 'stroke-width: 3;' />");
    assert_eq!(html.matches(&base(165)).count(), 1);
    assert_eq!(html.matches(&base(365)).count(), 1);
    assert_eq!(html.matches("stroke='black' style = 'stroke-width: 3;' />").count(), 2);
    let top = html.find(">seq2</text>").unwrap();
    let bottom = html.find(">seq1</text>").unwrap();
    assert!(top < bottom);
    assert!(html.contains("y='15' font-weight='bold' class='small' font-family='monospace'>seq2</text>"));
    assert!(html.contains("y='215' font-weight='bold' class='small' font-family='monospace'>seq1</text>"));
}
