//! Normalisation of annotation records into rows, grouped by sequence.

use vstd::prelude::*;
use vstd::string::*;

verus! {

/// Direction of a feature on its sequence.
#[derive(Clone, Copy, Debug, PartialEq, Eq, Structural)]
pub enum Strand {
    Forward,
    Reverse,
    Unknown,
}

/// The annotation tools whose records can be labelled.
#[derive(Clone, Copy, Debug, PartialEq, Eq, Structural)]
pub enum Source {
    /// `ORFfinder`
    OrfFinder,
    /// `cmscan`
    Cmscan,
    /// `tRNAscan-SE`
    TrnaScan,
    /// `barrnap:0.9`
    Barrnap,
}

/// One annotation record as read from a GFF3 file.
#[derive(Clone, Debug)]
pub struct Record {
    pub seqname: String,
    pub source: String,
    pub feature_type: String,
    /// 1-based, inclusive.
    pub start: u64,
    /// Inclusive.
    pub end: u64,
    /// The strand column as written: `+`, `-`, `.` or `?`.
    pub strand: String,
    /// Attribute pairs in file order; a key that occurs twice resolves to its
    /// first value.
    pub attributes: Vec<(String, String)>,
}

/// A normalised annotation: a label for display and the feature's extent.
#[derive(Clone, Debug)]
pub struct Row {
    pub feature_name: String,
    pub source: String,
    pub feature_type: String,
    pub start: u64,
    pub end: u64,
    pub strand: Strand,
}

/// What a [`Row`] holds, as mathematical values.
pub struct RowView {
    pub feature_name: Seq<char>,
    pub source: Seq<char>,
    pub feature_type: Seq<char>,
    pub start: u64,
    pub end: u64,
    pub strand: Strand,
}

impl View for Row {
    type V = RowView;

    open spec fn view(&self) -> RowView {
        RowView {
            feature_name: self.feature_name@,
            source: self.source@,
            feature_type: self.feature_type@,
            start: self.start,
            end: self.end,
            strand: self.strand,
        }
    }
}

/// Why a set of records cannot be drawn.
#[derive(Clone, Debug)]
pub enum GffError {
    /// A record names a tool outside the known four; holds the tool's name.
    UnknownSource(String),
    /// A record lacks an attribute that its tool always writes; holds the key.
    MissingAttribute(String),
    /// A strand column other than `+`, `-`, `.` or `?`; holds the column.
    MalformedStrand(String),
    /// A sequence whose features all end at position 0; holds its name.
    DegenerateRange(String),
}

/// What a [`GffError`] holds, as mathematical values.
pub enum ErrorView {
    UnknownSource(Seq<char>),
    MissingAttribute(Seq<char>),
    MalformedStrand(Seq<char>),
    DegenerateRange(Seq<char>),
}

impl View for GffError {
    type V = ErrorView;

    open spec fn view(&self) -> ErrorView {
        match self {
            GffError::UnknownSource(s) => ErrorView::UnknownSource(s@),
            GffError::MissingAttribute(s) => ErrorView::MissingAttribute(s@),
            GffError::MalformedStrand(s) => ErrorView::MalformedStrand(s@),
            GffError::DegenerateRange(s) => ErrorView::DegenerateRange(s@),
        }
    }
}

/// The tool that a source column names.
pub open spec fn source_of(s: Seq<char>) -> Option<Source> {
    if s == "ORFfinder"@ {
        Some(Source::OrfFinder)
    } else if s == "cmscan"@ {
        Some(Source::Cmscan)
    } else if s == "tRNAscan-SE"@ {
        Some(Source::TrnaScan)
    } else if s == "barrnap:0.9"@ {
        Some(Source::Barrnap)
    } else {
        None
    }
}

/// The strand that a strand column names.
pub open spec fn strand_of(s: Seq<char>) -> Option<Strand> {
    if s == "+"@ {
        Some(Strand::Forward)
    } else if s == "-"@ {
        Some(Strand::Reverse)
    } else if s == "."@ || s == "?"@ {
        Some(Strand::Unknown)
    } else {
        None
    }
}

/// The first value stored under `key`.
pub open spec fn lookup(attrs: Seq<(String, String)>, key: Seq<char>) -> Option<Seq<char>>
    decreases attrs.len(),
{
    if attrs.len() == 0 {
        None
    } else if attrs[0].0@ == key {
        Some(attrs[0].1@)
    } else {
        lookup(attrs.drop_first(), key)
    }
}

/// The label of a feature from `src`, or the first attribute key it lacks.
pub open spec fn label_of(src: Source, attrs: Seq<(String, String)>) -> Result<Seq<char>, Seq<char>> {
    match src {
        Source::OrfFinder => match (
            lookup(attrs, "pfam_accession"@),
            lookup(attrs, "target_name"@),
            lookup(attrs, "description"@),
        ) {
            (None, _, _) => Err("pfam_accession"@),
            (_, None, _) => Err("target_name"@),
            (_, _, None) => Err("description"@),
            (Some(p), Some(t), Some(d)) => Ok(
                "Pfam accession: "@ + p + "\nTarget name: "@ + t + "\nDescription: "@ + d,
            ),
        },
        Source::Cmscan => match lookup(attrs, "description"@) {
            None => Err("description"@),
            Some(d) => Ok("Description: "@ + d),
        },
        Source::TrnaScan => match (lookup(attrs, "gene_biotype"@), lookup(attrs, "anticodon"@)) {
            (None, _) => Err("gene_biotype"@),
            (_, None) => Err("anticodon"@),
            (Some(g), Some(a)) => Ok(g + ": "@ + a),
        },
        Source::Barrnap => match (lookup(attrs, "product"@), lookup(attrs, "note"@)) {
            (None, _) => Err("product"@),
            (_, None) => Err("note"@),
            (Some(p), Some(n)) => Ok(p + ": "@ + n),
        },
    }
}

/// Whether a record is skipped: exons repeat the features that hold them.
pub open spec fn is_skipped(rec: Record) -> bool {
    rec.feature_type@ == "exon"@
}

/// What normalising a record gives: its row, or the first problem found,
/// looking at the source, then the attributes, then the strand.
pub open spec fn outcome(rec: Record) -> Result<RowView, ErrorView> {
    match source_of(rec.source@) {
        None => Err(ErrorView::UnknownSource(rec.source@)),
        Some(src) => match label_of(src, rec.attributes@) {
            Err(key) => Err(ErrorView::MissingAttribute(key)),
            Ok(label) => match strand_of(rec.strand@) {
                None => Err(ErrorView::MalformedStrand(rec.strand@)),
                Some(strand) => Ok(
                    RowView {
                        feature_name: label,
                        source: rec.source@,
                        feature_type: rec.feature_type@,
                        start: rec.start,
                        end: rec.end,
                        strand,
                    },
                ),
            },
        },
    }
}

pub open spec fn result_view(r: Result<Row, GffError>) -> Result<RowView, ErrorView> {
    match r {
        Ok(row) => Ok(row@),
        Err(e) => Err(e@),
    }
}

pub(crate) fn text_is(s: &String, lit: &str) -> (r: bool)
    ensures
        r == (s@ == lit@),
{
    *s == String::from_str(lit)
}

/// Recognises the tool named by a source column.
pub fn parse_source(s: &String) -> (r: Option<Source>)
    ensures
        r == source_of(s@),
{
    if text_is(s, "ORFfinder") {
        Some(Source::OrfFinder)
    } else if text_is(s, "cmscan") {
        Some(Source::Cmscan)
    } else if text_is(s, "tRNAscan-SE") {
        Some(Source::TrnaScan)
    } else if text_is(s, "barrnap:0.9") {
        Some(Source::Barrnap)
    } else {
        None
    }
}

/// Reads a strand column.
pub fn parse_strand(s: &String) -> (r: Option<Strand>)
    ensures
        r == strand_of(s@),
{
    if text_is(s, "+") {
        Some(Strand::Forward)
    } else if text_is(s, "-") {
        Some(Strand::Reverse)
    } else if text_is(s, ".") || text_is(s, "?") {
        Some(Strand::Unknown)
    } else {
        None
    }
}

/// The first value stored under `key`.
pub fn get_attribute<'a>(attrs: &'a Vec<(String, String)>, key: &str) -> (r: Option<&'a String>)
    ensures
        match r {
            None => lookup(attrs@, key@) is None,
            Some(v) => lookup(attrs@, key@) == Some(v@),
        },
{
    let mut i: usize = 0;
    assert(attrs@.subrange(0, attrs@.len() as int) =~= attrs@);
    while i < attrs.len()
        invariant
            i <= attrs@.len(),
            lookup(attrs@, key@) == lookup(attrs@.subrange(i as int, attrs@.len() as int), key@),
        decreases attrs@.len() - i,
    {
        let ghost rest = attrs@.subrange(i as int, attrs@.len() as int);
        if attrs[i].0 == String::from_str(key) {
            return Some(&attrs[i].1);
        }
        assert(rest.drop_first() =~= attrs@.subrange(i + 1, attrs@.len() as int));
        i = i + 1;
    }
    None
}

fn missing(key: &str) -> (r: GffError)
    ensures
        r@ == ErrorView::MissingAttribute(key@),
{
    GffError::MissingAttribute(String::from_str(key))
}

fn append3(a: &str, b: &str, c: &str) -> (r: String)
    ensures
        r@ == a@ + b@ + c@,
{
    let mut s = String::from_str(a);
    s.append(b);
    s.append(c);
    s
}

/// Builds the label of a feature from `src`, or names the first attribute
/// key it lacks.
pub fn feature_label(src: Source, attrs: &Vec<(String, String)>) -> (r: Result<String, GffError>)
    ensures
        match label_of(src, attrs@) {
            Ok(label) => r matches Ok(s) && s@ == label,
            Err(key) => r matches Err(e) && e@ == ErrorView::MissingAttribute(key),
        },
{
    match src {
        Source::OrfFinder => {
            let p = match get_attribute(attrs, "pfam_accession") {
                Some(v) => v,
                None => return Err(missing("pfam_accession")),
            };
            let t = match get_attribute(attrs, "target_name") {
                Some(v) => v,
                None => return Err(missing("target_name")),
            };
            let d = match get_attribute(attrs, "description") {
                Some(v) => v,
                None => return Err(missing("description")),
            };
            let mut s = append3("Pfam accession: ", p.as_str(), "\nTarget name: ");
            s.append(t.as_str());
            s.append("\nDescription: ");
            s.append(d.as_str());
            Ok(s)
        },
        Source::Cmscan => {
            let d = match get_attribute(attrs, "description") {
                Some(v) => v,
                None => return Err(missing("description")),
            };
            let mut s = String::from_str("Description: ");
            s.append(d.as_str());
            Ok(s)
        },
        Source::TrnaScan => {
            let g = match get_attribute(attrs, "gene_biotype") {
                Some(v) => v,
                None => return Err(missing("gene_biotype")),
            };
            let a = match get_attribute(attrs, "anticodon") {
                Some(v) => v,
                None => return Err(missing("anticodon")),
            };
            Ok(append3(g.as_str(), ": ", a.as_str()))
        },
        Source::Barrnap => {
            let p = match get_attribute(attrs, "product") {
                Some(v) => v,
                None => return Err(missing("product")),
            };
            let n = match get_attribute(attrs, "note") {
                Some(v) => v,
                None => return Err(missing("note")),
            };
            Ok(append3(p.as_str(), ": ", n.as_str()))
        },
    }
}

/// Turns one record into a row: labels it according to its tool and reads
/// its strand.
pub fn normalize_record(rec: &Record) -> (r: Result<Row, GffError>)
    ensures
        result_view(r) == outcome(*rec),
{
    let src = match parse_source(&rec.source) {
        Some(s) => s,
        None => return Err(GffError::UnknownSource(rec.source.clone())),
    };
    let feature_name = match feature_label(src, &rec.attributes) {
        Ok(l) => l,
        Err(e) => return Err(e),
    };
    let strand = match parse_strand(&rec.strand) {
        Some(s) => s,
        None => return Err(GffError::MalformedStrand(rec.strand.clone())),
    };
    Ok(
        Row {
            feature_name,
            source: rec.source.clone(),
            feature_type: rec.feature_type.clone(),
            start: rec.start,
            end: rec.end,
            strand,
        },
    )
}

} // verus!
