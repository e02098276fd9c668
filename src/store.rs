//! The annotation store: rows grouped by sequence name, names kept in
//! lexicographic order.

use vstd::prelude::*;
use vstd::string::*;
use crate::parse::{text_is, is_skipped, result_view, normalize_record, outcome, ErrorView, GffError, Record, Row, RowView};

verus! {

/// Lexicographic order on character sequences, by code point. On strings
/// this is the order of their UTF-8 bytes, which is `String`'s own order.
pub open spec fn lex_lt(a: Seq<char>, b: Seq<char>) -> bool
    decreases a.len(),
{
    if a.len() == 0 {
        b.len() > 0
    } else if b.len() == 0 {
        false
    } else if a[0] != b[0] {
        (a[0] as int) < (b[0] as int)
    } else {
        lex_lt(a.drop_first(), b.drop_first())
    }
}

pub proof fn lemma_lex_irreflexive(a: Seq<char>)
    ensures
        !lex_lt(a, a),
    decreases a.len(),
{
    if a.len() > 0 {
        lemma_lex_irreflexive(a.drop_first());
    }
}

pub proof fn lemma_lex_transitive(a: Seq<char>, b: Seq<char>, c: Seq<char>)
    requires
        lex_lt(a, b),
        lex_lt(b, c),
    ensures
        lex_lt(a, c),
    decreases a.len(),
{
    if a.len() > 0 && b.len() > 0 && c.len() > 0 && a[0] == b[0] && b[0] == c[0] {
        lemma_lex_transitive(a.drop_first(), b.drop_first(), c.drop_first());
    }
}

pub proof fn lemma_lex_total(a: Seq<char>, b: Seq<char>)
    requires
        a != b,
    ensures
        lex_lt(a, b) || lex_lt(b, a),
    decreases a.len(),
{
    if a.len() > 0 && b.len() > 0 && a[0] == b[0] {
        if a.drop_first() == b.drop_first() {
            assert(a =~= seq![a[0]] + a.drop_first());
            assert(b =~= seq![b[0]] + b.drop_first());
        }
        lemma_lex_total(a.drop_first(), b.drop_first());
    } else if a.len() > 0 && b.len() > 0 {
        assert(a[0] as int != b[0] as int);
    } else if a.len() == 0 && b.len() == 0 {
        assert(a =~= b);
    }
}

/// Whether `a` sorts strictly before `b`.
pub fn key_less(a: &String, b: &String) -> (r: bool)
    ensures
        r == lex_lt(a@, b@),
{
    let la = a.as_str().unicode_len();
    let lb = b.as_str().unicode_len();
    let mut i: usize = 0;
    assert(a@.skip(0) =~= a@);
    assert(b@.skip(0) =~= b@);
    loop
        invariant
            la == a@.len(),
            lb == b@.len(),
            i <= la,
            i <= lb,
            lex_lt(a@, b@) == lex_lt(a@.skip(i as int), b@.skip(i as int)),
        decreases la - i,
    {
        if i == la {
            return i < lb;
        }
        if i == lb {
            return false;
        }
        let ca = a.as_str().get_char(i);
        let cb = b.as_str().get_char(i);
        if ca != cb {
            return (ca as u32) < (cb as u32);
        }
        assert(a@.skip(i as int).drop_first() =~= a@.skip(i + 1));
        assert(b@.skip(i as int).drop_first() =~= b@.skip(i + 1));
        i = i + 1;
    }
}

/// Names strictly increasing, hence unique.
pub open spec fn sorted(s: Seq<(Seq<char>, Seq<RowView>)>) -> bool {
    forall|i: int, j: int| 0 <= i < j < s.len() ==> lex_lt(#[trigger] s[i].0, #[trigger] s[j].0)
}

/// The rows stored under `key`; none when the name is absent.
pub open spec fn rows_of(s: Seq<(Seq<char>, Seq<RowView>)>, key: Seq<char>) -> Seq<RowView>
    decreases s.len(),
{
    if s.len() == 0 {
        Seq::empty()
    } else if s[0].0 == key {
        s[0].1
    } else {
        rows_of(s.drop_first(), key)
    }
}

proof fn lemma_rows_of_at(s: Seq<(Seq<char>, Seq<RowView>)>, i: int, key: Seq<char>)
    requires
        0 <= i < s.len(),
        s[i].0 == key,
        forall|j: int| 0 <= j < i ==> s[j].0 != key,
    ensures
        rows_of(s, key) == s[i].1,
    decreases i,
{
    if i > 0 {
        assert(s[0].0 != key);
        assert forall|j: int| 0 <= j < i - 1 implies s.drop_first()[j].0 != key by {
            assert(s.drop_first()[j] == s[j + 1]);
        }
        lemma_rows_of_at(s.drop_first(), i - 1, key);
    }
}

proof fn lemma_rows_of_absent(s: Seq<(Seq<char>, Seq<RowView>)>, key: Seq<char>)
    requires
        forall|j: int| 0 <= j < s.len() ==> s[j].0 != key,
    ensures
        rows_of(s, key) == Seq::<RowView>::empty(),
    decreases s.len(),
{
    if s.len() > 0 {
        assert(s[0].0 != key);
        assert forall|j: int| 0 <= j < s.len() - 1 implies s.drop_first()[j].0 != key by {
            assert(s.drop_first()[j] == s[j + 1]);
        }
        lemma_rows_of_absent(s.drop_first(), key);
    }
}

/// In a sorted store, the rows under a name are those of its entry.
proof fn lemma_rows_of_sorted(s: Seq<(Seq<char>, Seq<RowView>)>, key: Seq<char>)
    requires
        sorted(s),
    ensures
        (exists|i: int| 0 <= i < s.len() && s[i].0 == key) ==> (forall|i: int|
            0 <= i < s.len() && s[i].0 == key ==> rows_of(s, key) == #[trigger] s[i].1),
        (forall|i: int| 0 <= i < s.len() ==> s[i].0 != key) ==> rows_of(s, key) == Seq::<RowView>::empty(),
{
    assert forall|i: int| 0 <= i < s.len() && s[i].0 == key implies rows_of(s, key) == #[trigger] s[i].1 by {
        assert forall|j: int| 0 <= j < i implies s[j].0 != key by {
            assert(lex_lt(s[j].0, s[i].0));
            lemma_lex_irreflexive(key);
        }
        lemma_rows_of_at(s, i, key);
    }
    if forall|i: int| 0 <= i < s.len() ==> s[i].0 != key {
        lemma_rows_of_absent(s, key);
    }
}

/// The rows that the records give under `key`, in record order.
pub open spec fn kept_rows(recs: Seq<Record>, key: Seq<char>) -> Seq<RowView>
    decreases recs.len(),
{
    if recs.len() == 0 {
        Seq::empty()
    } else {
        let prev = kept_rows(recs.drop_last(), key);
        let rec = recs.last();
        if !is_skipped(rec) && rec.seqname@ == key {
            match outcome(rec) {
                Ok(row) => prev.push(row),
                Err(_) => prev,
            }
        } else {
            prev
        }
    }
}

/// The problem of the first record, not skipped, that cannot be normalised.
pub open spec fn first_error(recs: Seq<Record>) -> Option<ErrorView>
    decreases recs.len(),
{
    if recs.len() == 0 {
        None
    } else {
        match first_error(recs.drop_last()) {
            Some(e) => Some(e),
            None => {
                let rec = recs.last();
                if is_skipped(rec) {
                    None
                } else {
                    match outcome(rec) {
                        Ok(_) => None,
                        Err(e) => Some(e),
                    }
                }
            },
        }
    }
}

proof fn lemma_first_error_prefix(recs: Seq<Record>, n: int)
    requires
        0 <= n <= recs.len(),
        first_error(recs.subrange(0, n)) is Some,
    ensures
        first_error(recs) == first_error(recs.subrange(0, n)),
    decreases recs.len(),
{
    if recs.len() == n {
        assert(recs.subrange(0, n) =~= recs);
    } else {
        assert(recs.drop_last().subrange(0, n) =~= recs.subrange(0, n));
        lemma_first_error_prefix(recs.drop_last(), n);
    }
}

/// The rows of each annotated sequence, by sequence name.
pub struct PlotData {
    data: Vec<(String, Vec<Row>)>,
}

pub open spec fn rows_view(rows: Seq<Row>) -> Seq<RowView> {
    rows.map_values(|r: Row| r@)
}

pub open spec fn entries_view(d: Seq<(String, Vec<Row>)>) -> Seq<(Seq<char>, Seq<RowView>)> {
    d.map_values(|e: (String, Vec<Row>)| (e.0@, rows_view(e.1@)))
}

impl View for PlotData {
    type V = Seq<(Seq<char>, Seq<RowView>)>;

    closed spec fn view(&self) -> Seq<(Seq<char>, Seq<RowView>)> {
        entries_view(self.data@)
    }
}

/// Names sorted and every sequence with at least one row.
pub open spec fn well_formed(s: Seq<(Seq<char>, Seq<RowView>)>) -> bool {
    sorted(s) && forall|i: int| 0 <= i < s.len() ==> (#[trigger] s[i]).1.len() > 0
}

impl PlotData {
    pub open spec fn wf(&self) -> bool {
        well_formed(self@)
    }

    /// A store with no sequence.
    pub fn new() -> (r: PlotData)
        ensures
            r@ == Seq::<(Seq<char>, Seq<RowView>)>::empty(),
            r.wf(),
    {
        let r = PlotData { data: Vec::new() };
        assert(r@ =~= Seq::<(Seq<char>, Seq<RowView>)>::empty());
        r
    }

    /// The sequences with their rows, names in lexicographic order.
    pub fn entries(&self) -> (r: &Vec<(String, Vec<Row>)>)
        ensures
            entries_view(r@) == self@,
    {
        &self.data
    }

    /// Appends `row` to the rows of `key`, adding the name where it is new.
    pub fn add_row(&mut self, key: String, row: Row)
        requires
            old(self).wf(),
        ensures
            final(self).wf(),
            forall|k: Seq<char>| #[trigger]
                rows_of(final(self)@, k) == if k == key@ {
                    rows_of(old(self)@, k).push(row@)
                } else {
                    rows_of(old(self)@, k)
                },
    {
        let ghost s = self@;
        let n = self.data.len();
        let mut j: usize = 0;
        while j < n
            invariant
                n == self.data@.len(),
                self@ == s,
                s == old(self)@,
                j <= n,
                forall|l: int| 0 <= l < j ==> lex_lt(#[trigger] s[l].0, key@),
                well_formed(s),
                s.len() == n,
            ensures
                j == n || (j < n && lex_lt(key@, s[j as int].0)),
                forall|l: int| 0 <= l < j ==> lex_lt(#[trigger] s[l].0, key@),
            decreases n - j,
        {
            assert(s[j as int].0 == self.data@[j as int].0@);
            if self.data[j].0 == key {
                let mut e = self.data.remove(j);
                e.1.push(row);
                self.data.insert(j, e);
                proof {
                    let t = s.update(j as int, (s[j as int].0, s[j as int].1.push(row@)));
                    assert(rows_view(e.1@) =~= s[j as int].1.push(row@));
                    assert(self@ =~= t);
                    lemma_update_rows(s, j as int, row@);
                    assert(s[j as int].0 == key@);
                }
                return;
            }
            if !key_less(&self.data[j].0, &key) {
                proof {
                    lemma_lex_total(key@, s[j as int].0);
                }
                break;
            }
            j = j + 1;
        }
        proof {
            assert forall|l: int| j <= l < s.len() implies lex_lt(key@, #[trigger] s[l].0) by {
                if l > j {
                    lemma_lex_transitive(key@, s[j as int].0, s[l].0);
                }
            }
        }
        let mut rows = Vec::new();
        rows.push(row);
        self.data.insert(j, (key, rows));
        proof {
            assert(rows_view(rows@) =~= seq![row@]);
            assert(self@ =~= s.insert(j as int, (key@, seq![row@])));
            lemma_insert_rows(s, j as int, key@, row@);
        }
    }
}

proof fn lemma_update_rows(s: Seq<(Seq<char>, Seq<RowView>)>, j: int, row: RowView)
    requires
        well_formed(s),
        0 <= j < s.len(),
    ensures
        well_formed(s.update(j, (s[j].0, s[j].1.push(row)))),
        forall|k: Seq<char>| #[trigger]
            rows_of(s.update(j, (s[j].0, s[j].1.push(row))), k) == if k == s[j].0 {
                rows_of(s, k).push(row)
            } else {
                rows_of(s, k)
            },
{
    let t = s.update(j, (s[j].0, s[j].1.push(row)));
    assert(sorted(t));
    assert forall|k: Seq<char>| #[trigger]
        rows_of(t, k) == if k == s[j].0 {
            rows_of(s, k).push(row)
        } else {
            rows_of(s, k)
        } by {
        lemma_rows_of_sorted(s, k);
        lemma_rows_of_sorted(t, k);
        if k == s[j].0 {
            assert(t[j].0 == k);
            assert(rows_of(s, k) == s[j].1);
            assert(rows_of(t, k) == t[j].1);
        } else if exists|i: int| 0 <= i < s.len() && s[i].0 == k {
            let i = choose|i: int| 0 <= i < s.len() && s[i].0 == k;
            assert(t[i].0 == k);
            assert(rows_of(s, k) == s[i].1);
            assert(rows_of(t, k) == t[i].1);
        } else {
            assert forall|i: int| 0 <= i < t.len() implies t[i].0 != k by {
                assert(s[i].0 != k);
            }
        }
    }
}

proof fn lemma_insert_rows(s: Seq<(Seq<char>, Seq<RowView>)>, p: int, key: Seq<char>, row: RowView)
    requires
        well_formed(s),
        0 <= p <= s.len(),
        forall|l: int| 0 <= l < p ==> lex_lt(#[trigger] s[l].0, key),
        forall|l: int| p <= l < s.len() ==> lex_lt(key, #[trigger] s[l].0),
    ensures
        well_formed(s.insert(p, (key, seq![row]))),
        forall|k: Seq<char>| #[trigger]
            rows_of(s.insert(p, (key, seq![row])), k) == if k == key {
                rows_of(s, k).push(row)
            } else {
                rows_of(s, k)
            },
{
    let t = s.insert(p, (key, seq![row]));
    assert forall|i: int, j: int| 0 <= i < j < t.len() implies lex_lt(#[trigger] t[i].0, #[trigger] t[j].0) by {
        if j < p {
        } else if j == p {
        } else if i < p {
            assert(t[j] == s[j - 1]);
            lemma_lex_transitive(s[i].0, key, s[j - 1].0);
        } else if i == p {
            assert(t[j] == s[j - 1]);
        } else {
            assert(t[i] == s[i - 1]);
            assert(t[j] == s[j - 1]);
        }
    }
    assert forall|i: int| 0 <= i < t.len() implies (#[trigger] t[i]).1.len() > 0 by {
        if i > p {
            assert(t[i] == s[i - 1]);
        }
    }
    assert forall|k: Seq<char>| #[trigger]
        rows_of(t, k) == if k == key {
            rows_of(s, k).push(row)
        } else {
            rows_of(s, k)
        } by {
        lemma_rows_of_sorted(s, k);
        lemma_rows_of_sorted(t, k);
        if k == key {
            assert(t[p].0 == k);
            assert forall|i: int| 0 <= i < s.len() implies s[i].0 != k by {
                lemma_lex_irreflexive(k);
            }
            assert(rows_of(s, k).push(row) =~= seq![row]);
        } else if exists|i: int| 0 <= i < s.len() && s[i].0 == k {
            let i = choose|i: int| 0 <= i < s.len() && s[i].0 == k;
            if i < p {
                assert(t[i].0 == k);
            } else {
                assert(t[i + 1].0 == k);
            }
        } else {
            assert forall|i: int| 0 <= i < t.len() implies t[i].0 != k by {
                if i < p {
                    assert(s[i].0 != k);
                } else if i > p {
                    assert(t[i] == s[i - 1]);
                }
            }
        }
    }
}

/// Normalises the records and groups the rows by sequence name. Exons are
/// skipped; the first record that cannot be normalised stops the work and
/// its problem is returned.
pub fn parse_gff(records: &Vec<Record>) -> (r: Result<PlotData, GffError>)
    ensures
        match first_error(records@) {
            Some(e) => r matches Err(x) && x@ == e,
            None => r matches Ok(d) && d.wf() && forall|k: Seq<char>| #[trigger]
                rows_of(d@, k) == kept_rows(records@, k),
        },
{
    let mut store = PlotData::new();
    let mut i: usize = 0;
    while i < records.len()
        invariant
            i <= records@.len(),
            first_error(records@.subrange(0, i as int)) is None,
            store.wf(),
            forall|k: Seq<char>| #[trigger]
                rows_of(store@, k) == kept_rows(records@.subrange(0, i as int), k),
        decreases records@.len() - i,
    {
        let rec = &records[i];
        let ghost prev = records@.subrange(0, i as int);
        let ghost next = records@.subrange(0, i + 1);
        assert(next.drop_last() =~= prev);
        assert(next.last() == *rec);
        if !text_is(&rec.feature_type, "exon") {
            let res = normalize_record(rec);
            assert(result_view(res) == outcome(*rec));
            match res {
                Ok(row) => {
                    let ghost old_store = store@;
                    store.add_row(rec.seqname.clone(), row);
                    assert forall|k: Seq<char>| #[trigger]
                        rows_of(store@, k) == kept_rows(next, k) by {
                        assert(rows_of(old_store, k) == kept_rows(prev, k));
                    }
                },
                Err(e) => {
                    proof {
                        lemma_first_error_prefix(records@, i + 1);
                    }
                    return Err(e);
                },
            }
        } else {
            assert forall|k: Seq<char>| #[trigger]
                rows_of(store@, k) == kept_rows(next, k) by {
                assert(rows_of(store@, k) == kept_rows(prev, k));
            }
        }
        i = i + 1;
    }
    assert(records@.subrange(0, records@.len() as int) =~= records@);
    Ok(store)
}

} // verus!
